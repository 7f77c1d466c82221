//! The proxy that carries one shell connection into a sandbox.
//!
//! The proxy opens a connection to the sandbox, shows that it holds the shared secret,
//! waits for the sandbox to agree, and from then on passes bytes both ways.
use crate::clock::unix_seconds;
use crate::crypto::{hmac_sha256, hmac_sha256_tag, lemma_lower_hex_digits, lower_hex};
use crate::ident::{is_uuid, new_uuid};
use crate::text::{
    concat3, decimal_text, is_ascii_digit, joined, lemma_decimal_digits, same_text,
    signed_decimal, signed_text, trim, trimmed,
};
use vstd::pervasive::unreached;
use vstd::prelude::*;
use vstd::utf8::{decode_utf8, encode_utf8, valid_utf8};

verus! {

/// What is signed: the token, the time and the nonce.
pub open spec fn signed_payload(token: Seq<char>, timestamp: int, nonce: Seq<char>) -> Seq<char> {
    token + "|"@ + signed_text(timestamp) + "|"@ + nonce
}

/// The signature of the token, the time and the nonce under the secret.
pub open spec fn signature(
    token: Seq<char>,
    secret: Seq<char>,
    timestamp: int,
    nonce: Seq<char>,
) -> Seq<char> {
    lower_hex(
        hmac_sha256_tag(encode_utf8(secret), encode_utf8(signed_payload(token, timestamp, nonce))),
    )
}

/// The line that a connection to a sandbox begins with, with the signature `signature`.
pub open spec fn signed_preface_text(
    token: Seq<char>,
    timestamp: int,
    nonce: Seq<char>,
    signature: Seq<char>,
) -> Seq<char> {
    "NSSH1 "@ + token + " "@ + signed_text(timestamp) + " "@ + nonce + " "@ + signature + "\n"@
}

/// The line that a connection to a sandbox begins with.
pub open spec fn preface_text(
    token: Seq<char>,
    secret: Seq<char>,
    timestamp: int,
    nonce: Seq<char>,
) -> Seq<char> {
    signed_preface_text(token, timestamp, nonce, signature(token, secret, timestamp, nonce))
}

/// What is signed: the token, the time and the nonce.
pub fn payload_to_sign(token: &str, timestamp: i64, nonce: &str) -> (r: String)
    ensures
        r@ == signed_payload(token@, timestamp as int, nonce@),
{
    let time = signed_decimal(timestamp);
    let mut payload = concat3(token, "|", time.as_str());
    payload.append("|");
    payload.append(nonce);
    payload
}

/// The line that a connection to a sandbox begins with, at the time `timestamp`, with the
/// nonce `nonce` and the signature `signature`.
pub fn signed_preface(token: &str, timestamp: i64, nonce: &str, signature: &str) -> (r: String)
    ensures
        r@ == signed_preface_text(token@, timestamp as int, nonce@, signature@),
{
    let time = signed_decimal(timestamp);
    let mut r = concat3("NSSH1 ", token, " ");
    r.append(time.as_str());
    r.append(" ");
    r.append(nonce);
    r.append(" ");
    r.append(signature);
    r.append("\n");
    r
}

/// The line that a connection to a sandbox begins with, at the time `timestamp` and with
/// the nonce `nonce`.
pub fn preface(token: &str, secret: &str, timestamp: i64, nonce: &str) -> (r: String)
    ensures
        r@ == preface_text(token@, secret@, timestamp as int, nonce@),
{
    let payload = payload_to_sign(token, timestamp, nonce);
    let signature = hmac_sha256(secret.as_bytes(), payload.as_str().as_bytes());
    signed_preface(token, timestamp, nonce, signature.as_str())
}

/// The line that a connection to a sandbox begins with, at the time `now` and with the nonce
/// `nonce`. There is none where the time cannot be told.
pub fn preface_at(token: &str, secret: &str, now: Option<i64>, nonce: &str) -> (r: Result<
    String,
    String,
>)
    ensures
        match now {
            Some(timestamp) => r matches Ok(line) && line@ == preface_text(
                token@,
                secret@,
                timestamp as int,
                nonce@,
            ),
            None => r matches Err(e) && e@ == "time error"@,
        },
{
    match now {
        None => Err("time error".to_owned()),
        Some(timestamp) => Ok(preface(token, secret, timestamp, nonce)),
    }
}

/// The line that a connection to a sandbox begins with, at this time and with a fresh
/// nonce.
pub fn build_preface(token: &str, secret: &str) -> (r: Result<String, String>)
    ensures
        match r {
            Ok(line) => exists|timestamp: i64, nonce: Seq<char>|
                timestamp >= 0 && is_uuid(nonce) && line@ == #[trigger] preface_text(
                    token@,
                    secret@,
                    timestamp as int,
                    nonce,
                ),
            Err(e) => e@ == "time error"@,
        },
{
    let now = unix_seconds();
    let nonce = new_uuid();
    preface_at(token, secret, now, nonce.as_str())
}

/// The five fields of a preface.
pub open spec fn preface_fields(
    token: Seq<char>,
    secret: Seq<char>,
    timestamp: int,
    nonce: Seq<char>,
) -> Seq<Seq<char>> {
    seq![
        "NSSH1"@,
        token,
        signed_text(timestamp),
        nonce,
        signature(token, secret, timestamp, nonce),
    ]
}

/// `text` can be a field: it holds neither a space nor the end of a line.
pub open spec fn is_field(text: Seq<char>) -> bool {
    forall|i: int| 0 <= i < text.len() ==> #[trigger] text[i] != ' ' && text[i] != '\n'
}

proof fn lemma_uuid_is_field(text: Seq<char>)
    requires
        is_uuid(text),
    ensures
        is_field(text),
{
    assert forall|i: int| 0 <= i < text.len() implies #[trigger] text[i] != ' ' && text[i]
        != '\n' by {}
}

/// A preface is one line of exactly five fields with a space between them, so its reader
/// can take it apart again.
pub proof fn preface_is_one_line_of_five_fields(
    token: Seq<char>,
    secret: Seq<char>,
    timestamp: int,
    nonce: Seq<char>,
)
    requires
        timestamp >= 0,
        is_uuid(token),
        is_uuid(nonce),
    ensures
        preface_text(token, secret, timestamp, nonce) == joined(
            preface_fields(token, secret, timestamp, nonce),
            " "@,
        ) + "\n"@,
        forall|i: int|
            0 <= i < 5 ==> is_field(#[trigger] preface_fields(token, secret, timestamp, nonce)[i]),
{
    reveal_strlit("NSSH1");
    reveal_strlit("NSSH1 ");
    reveal_strlit(" ");
    reveal_strlit("\n");
    let fields = preface_fields(token, secret, timestamp, nonce);
    let sep = " "@;
    reveal_with_fuel(joined, 6);
    assert(fields.drop_last() =~= seq![
        "NSSH1"@,
        token,
        signed_text(timestamp),
        nonce,
    ]);
    assert(fields.drop_last().drop_last() =~= seq!["NSSH1"@, token, signed_text(timestamp)]);
    assert(fields.drop_last().drop_last().drop_last() =~= seq!["NSSH1"@, token]);
    assert(fields.drop_last().drop_last().drop_last().drop_last() =~= seq!["NSSH1"@]);
    assert("NSSH1 "@ =~= "NSSH1"@ + sep);
    lemma_uuid_is_field(token);
    lemma_uuid_is_field(nonce);
    assert(is_field("NSSH1"@));
    assert(is_field(signed_text(timestamp))) by {
        lemma_decimal_digits(timestamp as nat);
        let digits = decimal_text(timestamp as nat);
        assert forall|i: int| 0 <= i < digits.len() implies #[trigger] digits[i] != ' '
            && digits[i] != '\n' by {
            assert(is_ascii_digit(digits[i]));
        }
    }
    assert(is_field(signature(token, secret, timestamp, nonce))) by {
        lemma_lower_hex_digits(
            hmac_sha256_tag(
                encode_utf8(secret),
                encode_utf8(signed_payload(token, timestamp, nonce)),
            ),
        );
    }
}

/// The text that bytes are read as where what is no text is replaced.
pub uninterp spec fn lossy_text(bytes: Seq<u8>) -> Seq<char>;

/// Calls `String::from_utf8_lossy`. Claims that the result depends on the bytes alone, and
/// that bytes in valid UTF-8 are read as the text they encode.
#[verifier::external_body]
fn read_lossy(bytes: &[u8]) -> (r: String)
    ensures
        r@ == lossy_text(bytes@),
        valid_utf8(bytes@) ==> r@ == decode_utf8(bytes@),
{
    String::from_utf8_lossy(bytes).to_string()
}

/// The most bytes of a line that are read, but for one.
pub const LINE_LIMIT: usize = 1024;

/// A line in the middle of being read.
pub struct LineReader {
    pub bytes: Vec<u8>,
}

/// What was read from a connection.
#[derive(Debug, Clone, Copy, PartialEq, Eq, Structural)]
pub enum Input {
    Byte(u8),
    /// The connection has ended.
    End,
    /// The connection has failed.
    Failed,
}

impl LineReader {
    pub fn new() -> (r: LineReader)
        ensures
            r.bytes@.len() == 0,
    {
        LineReader { bytes: Vec::new() }
    }

    /// Takes in one byte, or the end of the connection. Gives whether the line is
    /// complete: at its end, at the end of the connection, or once it is too long.
    pub fn take(&mut self, input: Option<u8>) -> (complete: bool)
        requires
            old(self).bytes@.len() <= LINE_LIMIT,
        ensures
            match input {
                None => complete && final(self).bytes@ == old(self).bytes@,
                Some(byte) => if byte == 0x0A {
                    complete && final(self).bytes@ == old(self).bytes@
                } else {
                    &&& final(self).bytes@ == old(self).bytes@.push(byte)
                    &&& complete == (final(self).bytes@.len() > LINE_LIMIT)
                },
            },
    {
        match input {
            None => true,
            Some(byte) => {
                if byte == 0x0A {
                    return true;
                }
                self.bytes.push(byte);
                self.bytes.len() > LINE_LIMIT
            },
        }
    }

    /// The line that was read.
    pub fn line(&self) -> (r: String)
        ensures
            r@ == lossy_text(self.bytes@),
            valid_utf8(self.bytes@) ==> r@ == decode_utf8(self.bytes@),
    {
        read_lossy(self.bytes.as_slice())
    }
}

/// The part of `input` that belongs to the line it begins with.
pub open spec fn line_bytes(input: Seq<u8>) -> Seq<u8>
    decreases input.len(),
{
    if input.len() == 0 {
        Seq::empty()
    } else {
        let before = line_bytes(input.drop_last());
        if before.len() < input.len() - 1 || input.last() == 0x0A || before.len() > LINE_LIMIT {
            before
        } else {
            before.push(input.last())
        }
    }
}

/// The line that `input` begins with ends before `input` does.
pub open spec fn line_is_complete(input: Seq<u8>) -> bool {
    line_bytes(input).len() < input.len() || line_bytes(input).len() > LINE_LIMIT
}

proof fn lemma_line_is_no_longer(input: Seq<u8>)
    ensures
        line_bytes(input).len() <= input.len(),
    decreases input.len(),
{
    if input.len() > 0 {
        lemma_line_is_no_longer(input.drop_last());
    }
}

/// Reads the line that `input` begins with, byte by byte as a connection gives it. The
/// line ends with its end mark, with the input, or where it is too long.
pub fn read_line(input: &Vec<u8>) -> (r: String)
    ensures
        r@ == lossy_text(line_bytes(input@)),
{
    let mut reader = LineReader::new();
    let mut complete = false;
    let mut i: usize = 0;
    assert(input@.take(0) =~= Seq::<u8>::empty());
    while i < input.len() && !complete
        invariant
            i <= input@.len(),
            reader.bytes@ == line_bytes(input@.take(i as int)),
            complete == line_is_complete(input@.take(i as int)),
            !complete ==> reader.bytes@.len() <= LINE_LIMIT,
        decreases input@.len() - i,
    {
        proof {
            assert(input@.take(i + 1).drop_last() =~= input@.take(i as int));
            assert(input@.take(i + 1).last() == input@[i as int]);
            lemma_line_is_no_longer(input@.take(i as int));
        }
        complete = reader.take(Some(input[i]));
        i = i + 1;
    }
    proof {
        lemma_line_is_settled(input@, i as int);
    }
    reader.line()
}

proof fn lemma_line_is_settled(input: Seq<u8>, i: int)
    requires
        0 <= i <= input.len(),
        i == input.len() || line_is_complete(input.take(i)),
    ensures
        line_bytes(input) == line_bytes(input.take(i)),
    decreases input.len() - i,
{
    if i < input.len() {
        assert(input.take(i + 1).drop_last() =~= input.take(i));
        lemma_line_is_settled(input, i + 1);
    } else {
        assert(input.take(i) =~= input);
    }
}

/// Whether the line that a sandbox answered with lets the connection through.
pub fn reply_is_ok(line: &str) -> (r: bool)
    ensures
        r == (trimmed(line@) == "OK"@),
{
    let reply = trim(line);
    same_text(reply.as_str(), "OK")
}

/// Work that the proxy asks for.
#[derive(Debug)]
pub enum ProxyEffect<'a> {
    /// Wait for the one client.
    Accept,
    /// Connect to the sandbox.
    Connect { host: &'a String, port: u16 },
    /// Write to the sandbox.
    Write(&'a String),
    /// Read one byte from the sandbox.
    Read,
    /// Pass bytes both ways until either side ends.
    Relay,
}

/// What came of the work that the proxy asked for.
#[derive(Debug)]
pub enum ProxyReply {
    /// Whether the work succeeded.
    Worked(bool),
    Input(Input),
}

/// The proxy for one connection.
pub enum SshProxy {
    Accept { host: String, port: u16, secret: String },
    Connect { host: String, port: u16, secret: String },
    Greet { preface: String },
    ReadReply { reader: LineReader },
    Relay,
    Done,
}

impl SshProxy {
    /// A proxy to the sandbox at `host` and `port` that signs with `secret` starts as `proxy`.
    pub open spec fn begins(host: String, port: u16, secret: String, proxy: Self) -> bool {
        proxy == (SshProxy::Accept { host, port, secret })
    }

    /// A proxy to the sandbox at `host` and `port`.
    pub fn start_single_use_ssh_proxy(target_host: String, target_port: u16, secret: String) -> (r:
        Self)
        ensures
            r == (SshProxy::Accept { host: target_host, port: target_port, secret }),
            Self::begins(target_host, target_port, secret, r),
    {
        SshProxy::Accept { host: target_host, port: target_port, secret }
    }

    /// A line being read is never longer than its limit.
    pub open spec fn valid(&self) -> bool {
        self matches SshProxy::ReadReply { reader } ==> reader.bytes@.len() <= LINE_LIMIT
    }

    /// The work that comes next; `None` once the connection is over.
    pub open spec fn asks(&self) -> Option<ProxyEffect<'_>> {
        match self {
            SshProxy::Accept { .. } => Some(ProxyEffect::Accept),
            SshProxy::Connect { host, port, .. } => Some(
                ProxyEffect::Connect { host, port: *port },
            ),
            SshProxy::Greet { preface } => Some(ProxyEffect::Write(preface)),
            SshProxy::ReadReply { .. } => Some(ProxyEffect::Read),
            SshProxy::Relay => Some(ProxyEffect::Relay),
            SshProxy::Done => None,
        }
    }

    /// The proxy can go on from `reply`.
    pub open spec fn takes(&self, reply: ProxyReply) -> bool {
        match self {
            SshProxy::Done => false,
            SshProxy::ReadReply { .. } => reply is Input,
            _ => reply is Worked,
        }
    }

    /// Whether the proxy can go on from `reply`.
    pub fn can_take(&self, reply: &ProxyReply) -> (r: bool)
        ensures
            r == self.takes(*reply),
    {
        match (self, reply) {
            (SshProxy::Done, _) => false,
            (SshProxy::ReadReply { .. }, ProxyReply::Input(_)) => true,
            (SshProxy::ReadReply { .. }, _) => false,
            (_, ProxyReply::Worked(_)) => true,
            _ => false,
        }
    }

    /// With the line `bytes` complete, the connection goes on as `next`.
    pub open spec fn judges(bytes: Seq<u8>, next: Self) -> bool {
        next == (if trimmed(lossy_text(bytes)) == "OK"@ {
            SshProxy::Relay
        } else {
            SshProxy::Done
        })
    }

    /// From here, `reply` leads to `next`. Whatever fails ends the connection. The greeting
    /// has a fresh token.
    pub open spec fn follows(&self, reply: ProxyReply, next: Self) -> bool {
        match (*self, reply) {
            (SshProxy::Accept { host, port, secret }, ProxyReply::Worked(worked)) => if worked {
                next == (SshProxy::Connect { host, port, secret })
            } else {
                next == SshProxy::Done
            },
            (SshProxy::Connect { secret, .. }, ProxyReply::Worked(worked)) => if worked {
                ||| next == SshProxy::Done
                ||| next matches SshProxy::Greet { preface } && exists|
                    token: Seq<char>,
                    timestamp: i64,
                    nonce: Seq<char>,
                |
                    is_uuid(token) && timestamp >= 0 && is_uuid(nonce) && preface@
                        == #[trigger] preface_text(token, secret@, timestamp as int, nonce)
            } else {
                next == SshProxy::Done
            },
            (SshProxy::Greet { .. }, ProxyReply::Worked(worked)) => if worked {
                next matches SshProxy::ReadReply { reader } && reader.bytes@.len() == 0
            } else {
                next == SshProxy::Done
            },
            (SshProxy::ReadReply { reader }, ProxyReply::Input(input)) => match input {
                Input::Failed => next == SshProxy::Done,
                Input::End => Self::judges(reader.bytes@, next),
                Input::Byte(byte) => if byte == 0x0A {
                    Self::judges(reader.bytes@, next)
                } else if reader.bytes@.len() + 1 > LINE_LIMIT {
                    Self::judges(reader.bytes@.push(byte), next)
                } else {
                    next matches SshProxy::ReadReply { reader: longer } && longer.bytes@
                        == reader.bytes@.push(byte)
                },
            },
            (SshProxy::Relay, ProxyReply::Worked(_)) => next == SshProxy::Done,
            _ => false,
        }
    }

    /// The work that comes next; `None` once the connection is over.
    pub fn effect(&self) -> (r: Option<ProxyEffect<'_>>)
        ensures
            r == self.asks(),
    {
        match self {
            SshProxy::Accept { .. } => Some(ProxyEffect::Accept),
            SshProxy::Connect { host, port, .. } => Some(
                ProxyEffect::Connect { host, port: *port },
            ),
            SshProxy::Greet { preface } => Some(ProxyEffect::Write(preface)),
            SshProxy::ReadReply { .. } => Some(ProxyEffect::Read),
            SshProxy::Relay => Some(ProxyEffect::Relay),
            SshProxy::Done => None,
        }
    }

    /// Goes on with the greeting that was built, if one could be.
    pub fn greet(built: Result<String, String>) -> (next: Self)
        ensures
            next == (match built {
                Ok(preface) => SshProxy::Greet { preface },
                Err(_) => SshProxy::Done,
            }),
    {
        match built {
            Ok(preface) => SshProxy::Greet { preface },
            Err(_) => SshProxy::Done,
        }
    }

    fn judge(reader: &LineReader) -> (next: Self)
        ensures
            Self::judges(reader.bytes@, next),
    {
        let line = reader.line();
        if reply_is_ok(line.as_str()) {
            SshProxy::Relay
        } else {
            SshProxy::Done
        }
    }

    /// Goes on from what came of the work.
    pub fn resume(self, reply: ProxyReply) -> (next: Self)
        requires
            self.valid(),
            self.takes(reply),
        ensures
            self.follows(reply, next),
            next.valid(),
    {
        match (self, reply) {
            (SshProxy::Accept { host, port, secret }, ProxyReply::Worked(worked)) => if worked {
                SshProxy::Connect { host, port, secret }
            } else {
                SshProxy::Done
            },
            (SshProxy::Connect { secret, .. }, ProxyReply::Worked(worked)) => if worked {
                let token = new_uuid();
                Self::greet(build_preface(token.as_str(), secret.as_str()))
            } else {
                SshProxy::Done
            },
            (SshProxy::Greet { .. }, ProxyReply::Worked(worked)) => if worked {
                SshProxy::ReadReply { reader: LineReader::new() }
            } else {
                SshProxy::Done
            },
            (SshProxy::ReadReply { reader }, ProxyReply::Input(input)) => {
                let mut reader = reader;
                let complete = match input {
                    Input::Failed => {
                        return SshProxy::Done;
                    },
                    Input::End => reader.take(None),
                    Input::Byte(byte) => reader.take(Some(byte)),
                };
                if complete {
                    Self::judge(&reader)
                } else {
                    SshProxy::ReadReply { reader }
                }
            },
            (SshProxy::Relay, ProxyReply::Worked(_)) => SshProxy::Done,
            _ => unreached(),
        }
    }
}

/// Bytes pass between the two sides only after the sandbox has answered with a line that
/// says OK.
pub proof fn nothing_passes_before_the_sandbox_agrees(
    proxy: SshProxy,
    reply: ProxyReply,
    next: SshProxy,
)
    requires
        proxy.follows(reply, next),
        next is Relay,
    ensures
        proxy matches SshProxy::ReadReply { reader } && exists|line: Seq<u8>|
            #![trigger lossy_text(line)]
            reader.bytes@.is_prefix_of(line) && trimmed(lossy_text(line)) == "OK"@,
{
    let bytes = proxy->reader.bytes@;
    assert(bytes.subrange(0, bytes.len() as int) =~= bytes);
    if let ProxyReply::Input(Input::Byte(byte)) = reply {
        assert(bytes.push(byte).subrange(0, bytes.len() as int) =~= bytes);
        if trimmed(lossy_text(bytes)) == "OK"@ {
            assert(bytes.is_prefix_of(bytes));
        } else {
            assert(bytes.is_prefix_of(bytes.push(byte)));
        }
    } else {
        assert(bytes.is_prefix_of(bytes));
    }
}

/// A proxy waits for its client, connects to the sandbox it is for, and greets it with one line
/// of five fields. The last field signs the token, the time and the nonce with the secret that
/// the proxy was given. There is no greeting only where the time cannot be told.
pub proof fn proxy_greets_its_sandbox(
    host: String,
    port: u16,
    secret: String,
    start: SshProxy,
    connecting: SshProxy,
    greeting: SshProxy,
    line: String,
)
    requires
        SshProxy::begins(host, port, secret, start),
        start.follows(ProxyReply::Worked(true), connecting),
        connecting.follows(ProxyReply::Worked(true), greeting),
        greeting.asks() == Some(ProxyEffect::Write(&line)),
    ensures
        start.asks() == Some(ProxyEffect::Accept),
        connecting.asks() == Some(ProxyEffect::Connect { host: &host, port }),
        exists|token: Seq<char>, timestamp: i64, nonce: Seq<char>|
            is_uuid(token) && is_uuid(nonce) && timestamp >= 0 && line@ == #[trigger] greeting_line(
                secret@,
                token,
                timestamp as int,
                nonce,
            ),
{
    let (token, timestamp, nonce) = choose|token: Seq<char>, timestamp: i64, nonce: Seq<char>|
        is_uuid(token) && timestamp >= 0 && is_uuid(nonce) && line@ == #[trigger] preface_text(
            token,
            secret@,
            timestamp as int,
            nonce,
        );
    preface_is_one_line_of_five_fields(token, secret@, timestamp as int, nonce);
    assert(line@ == greeting_line(secret@, token, timestamp as int, nonce));
}

/// A greeting that is signed with `secret`.
pub open spec fn greeting_line(
    secret: Seq<char>,
    token: Seq<char>,
    timestamp: int,
    nonce: Seq<char>,
) -> Seq<char> {
    let signed = token + "|"@ + signed_text(timestamp) + "|"@ + nonce;
    let tag = hmac_sha256_tag(encode_utf8(secret), encode_utf8(signed));
    joined(seq!["NSSH1"@, token, signed_text(timestamp), nonce, lower_hex(tag)], " "@) + "\n"@
}

/// `replies` take a proxy through `states`, one by one.
pub open spec fn is_passage(states: Seq<SshProxy>, replies: Seq<ProxyReply>) -> bool {
    &&& states.len() == replies.len() + 1
    &&& forall|i: int|
        0 <= i < replies.len() ==> states[i].follows(#[trigger] replies[i], states[i + 1])
}

proof fn lemma_line_is_gathered(
    states: Seq<SshProxy>,
    replies: Seq<ProxyReply>,
    line: Seq<u8>,
    k: int,
)
    requires
        is_passage(states, replies),
        states[0] is Greet,
        replies.len() > line.len(),
        replies[0] == ProxyReply::Worked(true),
        forall|i: int|
            0 < i <= line.len() ==> #[trigger] replies[i] == ProxyReply::Input(
                Input::Byte(line[i - 1]),
            ),
        forall|i: int| 0 <= i < line.len() ==> #[trigger] line[i] != 0x0A,
        line.len() <= 1024,
        0 <= k <= line.len(),
    ensures
        states[k + 1] matches SshProxy::ReadReply { reader } && reader.bytes@ == line.take(k),
    decreases k,
{
    assert(states[k].follows(replies[k], states[k + 1]));
    if k > 0 {
        lemma_line_is_gathered(states, replies, line, k - 1);
        assert(line[k - 1] != 0x0A);
        assert(line.take(k) =~= line.take(k - 1).push(line[k - 1]));
    } else {
        assert(line.take(0) =~= Seq::<u8>::empty());
    }
}

/// After the greeting, the sandbox's answer is read up to the end of its line. Where it says
/// OK, bytes pass both ways from there on, and otherwise the connection is over.
pub proof fn answer_decides_whether_bytes_pass(
    states: Seq<SshProxy>,
    replies: Seq<ProxyReply>,
    line: Seq<u8>,
)
    requires
        is_passage(states, replies),
        states[0].asks() matches Some(ProxyEffect::Write(_)),
        replies.len() == line.len() + 2,
        replies[0] == ProxyReply::Worked(true),
        forall|i: int|
            0 < i <= line.len() ==> #[trigger] replies[i] == ProxyReply::Input(
                Input::Byte(line[i - 1]),
            ),
        replies.last() == ProxyReply::Input(Input::Byte(0x0A)) || replies.last()
            == ProxyReply::Input(Input::End),
        forall|i: int| 0 <= i < line.len() ==> #[trigger] line[i] != 0x0A,
        line.len() <= 1024,
    ensures
        trimmed(lossy_text(line)) == "OK"@ ==> states.last().asks() == Some(ProxyEffect::Relay),
        trimmed(lossy_text(line)) != "OK"@ ==> states.last().asks() is None,
{
    let n = line.len() as int;
    lemma_line_is_gathered(states, replies, line, n);
    assert(line.take(n) =~= line);
    assert(states[n + 1].follows(replies[n + 1], states[n + 2]));
}

/// Whatever fails before bytes pass ends the connection, and so does the end of their passing.
pub proof fn failure_ends_the_connection(proxy: SshProxy, reply: ProxyReply, next: SshProxy)
    requires
        proxy.follows(reply, next),
        reply == ProxyReply::Worked(false) || reply == ProxyReply::Input(Input::Failed)
            || proxy.asks() == Some(ProxyEffect::Relay),
    ensures
        next.asks() is None,
{
}

/// A line is everything up to the first end mark, and without the mark; where there is no mark
/// among the first bytes, it is the whole input, or its first one thousand and twenty-five bytes
/// where there are more.
pub proof fn line_ends_at_its_mark(input: Seq<u8>, k: int)
    requires
        0 <= k <= input.len(),
        k <= 1025,
        forall|i: int| 0 <= i < k ==> #[trigger] input[i] != 0x0A,
        k == 1025 || k == input.len() || input[k] == 0x0A,
    ensures
        line_bytes(input) == input.take(k),
    decreases input.len(),
{
    if input.len() > 0 {
        let rest = input.drop_last();
        if k == input.len() {
            line_ends_at_its_mark(rest, k - 1);
            assert(rest.take(k - 1).push(input.last()) =~= input.take(k));
            assert(input[k - 1] != 0x0A);
        } else {
            if k < rest.len() && k < 1025 {
                assert(rest[k] == 0x0A);
            }
            line_ends_at_its_mark(rest, k);
            assert(rest.take(k) =~= input.take(k));
        }
    } else {
        assert(input.take(0) =~= Seq::<u8>::empty());
    }
}

/// A proxy takes what can come of the work it asks for.
pub proof fn proxies_take_what_comes(proxy: SshProxy, worked: bool, input: Input)
    ensures
        proxy.asks() == Some(ProxyEffect::Read) ==> proxy.takes(ProxyReply::Input(input)),
        proxy.asks() is Some && proxy.asks() != Some(ProxyEffect::Read) ==> proxy.takes(
            ProxyReply::Worked(worked),
        ),
{
}

} // verus!
