//! The provisioning side: credentials submitted through the setup form and
//! the single-slot hand-off that carries them to the supervisor.
use vstd::prelude::*;
use crate::form::{decode_form, form_pairs, pairs_view};

verus! {

/// The largest request body the setup route accepts, in bytes.
pub const MAX_BODY_LEN: usize = 1024;

/// The page served on `GET /`: a form that posts `ssid` and `pass` to
/// `/setup`.
pub const FORM_PAGE: &'static str = "<!doctype html><html><body>
<h3>ESP32 Setup</h3>
<input id=ssid placeholder=SSID>
<input id=pass placeholder=Password type=password>
<button onclick=\"send()\">Connect</button>
<p id=s></p>
<script>
async function send(){
 const ssid=document.getElementById('ssid').value.trim();
 const pass=document.getElementById('pass').value.trim();
 if(!ssid){s.textContent='Missing SSID';return;}
 const body=`ssid=${encodeURIComponent(ssid)}&pass=${encodeURIComponent(pass)}`;
 const r=await fetch('/setup',{method:'POST',headers:{'Content-Type':'application/x-www-form-urlencoded'},body});
 s.textContent=await r.text();
}
</script></body></html>";

/// What a client-mode join needs.
#[derive(Debug)]
pub struct Credentials {
    pub network_id: String,
    pub secret: String,
}

impl View for Credentials {
    type V = (Seq<char>, Seq<char>);

    open spec fn view(&self) -> (Seq<char>, Seq<char>) {
        (self.network_id@, self.secret@)
    }
}

impl Credentials {
    /// Credentials can be used for a join only with a network identifier.
    pub open spec fn valid(&self) -> bool {
        self.network_id@.len() > 0
    }

    pub fn is_valid(&self) -> (r: bool)
        ensures
            r == self.valid(),
    {
        !self.network_id.as_str().is_empty()
    }

    /// A copy with the same texts.
    pub fn duplicate(&self) -> (r: Credentials)
        ensures
            r@ == self@,
    {
        Credentials { network_id: self.network_id.clone(), secret: self.secret.clone() }
    }
}

/// The value of the last pair whose key is `key`, or the empty text when no
/// pair has it: a later pair overrides an earlier one.
pub open spec fn last_value(pairs: Seq<(Seq<char>, Seq<char>)>, key: Seq<char>) -> Seq<char>
    decreases pairs.len(),
{
    if pairs.len() == 0 {
        seq![]
    } else if pairs.last().0 == key {
        pairs.last().1
    } else {
        last_value(pairs.drop_last(), key)
    }
}

/// The credentials that a setup body carries: its `ssid` and `pass` fields.
pub open spec fn submitted(body: Seq<u8>) -> (Seq<char>, Seq<char>) {
    (last_value(form_pairs(body), "ssid"@), last_value(form_pairs(body), "pass"@))
}

/// Reads the `ssid` and `pass` fields of a setup body; the last occurrence
/// of a key wins, and a missing key gives an empty text.
pub fn credentials_from_form(body: &[u8]) -> (c: Credentials)
    ensures
        c@ == submitted(body@),
{
    let pairs = decode_form(body);
    let ssid_key = "ssid".to_owned();
    let pass_key = "pass".to_owned();
    let mut network_id = String::new();
    let mut secret = String::new();
    let ghost all = pairs_view(pairs@);
    let mut i: usize = 0;
    while i < pairs.len()
        invariant
            i <= pairs@.len(),
            all == pairs_view(pairs@),
            all == form_pairs(body@),
            ssid_key@ == "ssid"@,
            pass_key@ == "pass"@,
            network_id@ == last_value(all.take(i as int), "ssid"@),
            secret@ == last_value(all.take(i as int), "pass"@),
        decreases pairs@.len() - i,
    {
        proof {
            assert(all.take(i + 1).drop_last() =~= all.take(i as int));
            assert(all.take(i + 1).last() == all[i as int]);
            assert(all[i as int] == (pairs@[i as int].0@, pairs@[i as int].1@));
        }
        if pairs[i].0 == ssid_key {
            network_id = pairs[i].1.clone();
        }
        if pairs[i].0 == pass_key {
            secret = pairs[i].1.clone();
        }
        i = i + 1;
    }
    proof {
        assert(all.take(i as int) =~= all);
    }
    Credentials { network_id, secret }
}

/// The single-capacity channel from the setup route to the supervisor.
/// While a value is pending, a new one is refused: the first complete
/// submission is the one that is joined.
pub struct HandoffSlot {
    pending: Option<Credentials>,
}

impl View for HandoffSlot {
    type V = Option<(Seq<char>, Seq<char>)>;

    closed spec fn view(&self) -> Option<(Seq<char>, Seq<char>)> {
        match self.pending {
            Some(c) => Some(c@),
            None => None,
        }
    }
}

impl HandoffSlot {
    pub fn new() -> (r: HandoffSlot)
        ensures
            r@ is None,
    {
        HandoffSlot { pending: None }
    }

    pub fn is_pending(&self) -> (r: bool)
        ensures
            r == self@ is Some,
    {
        self.pending.is_some()
    }

    /// Puts `c` in the slot if it is free; refuses it, leaving the slot as it
    /// was, if a value is pending.
    pub fn try_send(&mut self, c: Credentials) -> (accepted: bool)
        ensures
            accepted == old(self)@ is None,
            accepted ==> final(self)@ == Some(c@),
            !accepted ==> final(self)@ == old(self)@,
    {
        if self.pending.is_some() {
            false
        } else {
            self.pending = Some(c);
            true
        }
    }

    /// Takes the pending value out, if any, and leaves the slot free.
    pub fn take(&mut self) -> (r: Option<Credentials>)
        ensures
            final(self)@ is None,
            old(self)@ is None ==> r is None,
            old(self)@ is Some ==> r is Some && old(self)@ == Some(r->0@),
    {
        let r = self.pending.take();
        r
    }
}

/// The answer of the setup route.
#[derive(Clone, Copy, Debug, PartialEq, Eq)]
pub enum SetupReply {
    /// The credentials were handed to the supervisor.
    Accepted,
    /// The body carried no network identifier.
    MissingSsid,
    /// Credentials were already pending; these were refused.
    Busy,
    /// The body exceeded the route's limit.
    TooLarge,
}

impl SetupReply {
    pub open spec fn status_of(self) -> u16 {
        match self {
            SetupReply::Accepted => 200,
            SetupReply::MissingSsid => 400,
            SetupReply::Busy => 409,
            SetupReply::TooLarge => 413,
        }
    }

    /// The HTTP status code of the answer.
    pub fn status(&self) -> (r: u16)
        ensures
            r == self.status_of(),
    {
        match self {
            SetupReply::Accepted => 200,
            SetupReply::MissingSsid => 400,
            SetupReply::Busy => 409,
            SetupReply::TooLarge => 413,
        }
    }

    /// The plain-text body of the answer.
    pub fn message(&self) -> (r: &'static str)
        ensures
            *self == SetupReply::Accepted ==> r@ == "Accepted. Trying to connect..."@,
            *self == SetupReply::MissingSsid ==> r@ == "Missing ssid"@,
            *self == SetupReply::Busy ==> r@ == "Credentials already pending"@,
            *self == SetupReply::TooLarge ==> r@ == "Body too large"@,
    {
        match self {
            SetupReply::Accepted => "Accepted. Trying to connect...",
            SetupReply::MissingSsid => "Missing ssid",
            SetupReply::Busy => "Credentials already pending",
            SetupReply::TooLarge => "Body too large",
        }
    }
}

/// Adds one chunk read from the request to the body gathered so far, if the
/// body stays within `MAX_BODY_LEN`; leaves it as it was otherwise.
pub fn append_chunk(body: &mut Vec<u8>, chunk: &[u8]) -> (fits: bool)
    ensures
        fits == (old(body)@.len() + chunk@.len() <= MAX_BODY_LEN),
        fits ==> final(body)@ == old(body)@ + chunk@,
        !fits ==> final(body)@ == old(body)@,
{
    if body.len() > MAX_BODY_LEN || chunk.len() > MAX_BODY_LEN - body.len() {
        return false;
    }
    let ghost start = body@;
    let mut i: usize = 0;
    while i < chunk.len()
        invariant
            i <= chunk@.len(),
            body@ == start + chunk@.take(i as int),
        decreases chunk@.len() - i,
    {
        body.push(chunk[i]);
        proof {
            assert(chunk@.take(i + 1) =~= chunk@.take(i as int).push(chunk@[i as int]));
        }
        i = i + 1;
    }
    proof {
        assert(chunk@.take(i as int) =~= chunk@);
    }
    true
}

/// Handles a complete `POST /setup` body: without a network identifier it
/// answers `MissingSsid` and hands nothing over; otherwise it offers the
/// credentials to the slot and answers `Accepted`, or `Busy` when the slot
/// was taken.
pub fn handle_setup(body: &[u8], slot: &mut HandoffSlot) -> (r: SetupReply)
    ensures
        submitted(body@).0.len() == 0 ==> r == SetupReply::MissingSsid && final(slot)@ == old(
            slot,
        )@,
        submitted(body@).0.len() > 0 && old(slot)@ is Some ==> r == SetupReply::Busy
            && final(slot)@ == old(slot)@,
        submitted(body@).0.len() > 0 && old(slot)@ is None ==> r == SetupReply::Accepted
            && final(slot)@ == Some(submitted(body@)),
{
    let creds = credentials_from_form(body);
    if !creds.is_valid() {
        SetupReply::MissingSsid
    } else if slot.try_send(creds) {
        SetupReply::Accepted
    } else {
        SetupReply::Busy
    }
}

} // verus!
