//! The ColecoVision GX host protocol: the messages a game and its host
//! exchange, and the JSON encoding the web glue posts.

use vstd::prelude::*;

use crate::lists::{lemma_comma_joined_splits, split_commas};

use crate::json::{
    lemma_json_value_text, member_text, lemma_bool_value, lemma_decimal_value, lemma_object_text, lemma_str_value, members_text,
    object_text, parse_json, read_members, str_text, value_text_of, Json,
};

verus! {

/// Protocol version carried in every message as `v`.
pub const PROTOCOL_VERSION: u32 = 1;

/// Game to host. Written by games; the web glue posts each one to the host
/// that answered `gx:hello`.
#[derive(Debug, Clone, PartialEq, Eq)]
pub enum HostEvent {
    /// The engine is running and input is live. Posted once at startup.
    Ready,
    /// A state transition; `state` is the entered state's name.
    State(String),
    /// A run began.
    Started,
    /// A run ended.
    GameOver,
    /// Score update (final or running).
    Score(u64),
    /// The game's pause state changed.
    Paused(bool),
    /// Anything else. `data` must already be valid JSON.
    Custom { name: String, data: String },
}

/// Host to game. Emitted by the web glue when a `gx:hello` / `gx:set`
/// message arrives; games act on the ones they care about.
#[derive(Debug, Clone, Copy, PartialEq, Eq, Structural)]
pub enum HostCommand {
    /// A host introduced itself. `host_has_controls` means the host draws
    /// its own pad, so the in-page overlay hides.
    Hello { host_has_controls: bool },
    Pause,
    Resume,
    Mute(bool),
}

/// Static description of this game for the `gx:hello` handshake.
#[derive(Debug, Clone, PartialEq, Eq)]
pub struct GxConfig {
    /// Display name reported to the host.
    pub name: String,
    /// Aspect the canvas is authored for, e.g. `"16:9"`.
    pub aspect: String,
    /// Extra host origins (exact, e.g. `https://partner.example`) accepted
    /// on top of the built-in pattern (production site, Vercel previews,
    /// localhost).
    pub extra_host_origins: Vec<String>,
}

impl Default for GxConfig {
    fn default() -> (c: Self)
        ensures
            c.name@ == "Gamebient Game"@,
            c.aspect@ == "16:9"@,
            c.extra_host_origins@.len() == 0,
    {
        GxConfig {
            name: String::from_str("Gamebient Game"),
            aspect: String::from_str("16:9"),
            extra_host_origins: Vec::new(),
        }
    }
}

/// The character of a hexadecimal digit, lower case.
pub open spec fn hex_digit(d: int) -> char {
    if d < 10 {
        (48 + d) as char
    } else {
        (87 + d) as char
    }
}

fn hex_char(d: u32) -> (c: char)
    requires
        d < 16,
    ensures
        c == hex_digit(d as int),
{
    let b: u8 = d as u8;
    if b < 10 {
        (48u8 + b) as char
    } else {
        (87u8 + b) as char
    }
}

/// `String::push` of std: appends the character `c` to `s`.
#[verifier::external_body]
fn push_char(s: &mut String, c: char)
    ensures
        final(s)@ == old(s)@.push(c),
{
    s.push(c);
}

/// How one character appears inside a JSON string.
pub open spec fn escape_char(c: char) -> Seq<char> {
    if c == '"' {
        seq!['\\', '"']
    } else if c == '\\' {
        seq!['\\', '\\']
    } else if c == '\n' {
        seq!['\\', 'n']
    } else if c == '\r' {
        seq!['\\', 'r']
    } else if c == '\t' {
        seq!['\\', 't']
    } else if (c as int) < 0x20 {
        seq!['\\', 'u', '0', '0', hex_digit((c as int) / 16), hex_digit((c as int) % 16)]
    } else {
        seq![c]
    }
}

/// A string escaped for inclusion inside JSON double quotes.
pub open spec fn json_escaped(s: Seq<char>) -> Seq<char>
    decreases s.len(),
{
    if s.len() == 0 {
        seq![]
    } else {
        json_escaped(s.drop_last()) + escape_char(s.last())
    }
}

fn push_escaped(out: &mut String, c: char)
    ensures
        final(out)@ == old(out)@ + escape_char(c),
{
    let ghost before = out@;
    if c == '"' {
        push_char(out, '\\');
        push_char(out, '"');
    } else if c == '\\' {
        push_char(out, '\\');
        push_char(out, '\\');
    } else if c == '\n' {
        push_char(out, '\\');
        push_char(out, 'n');
    } else if c == '\r' {
        push_char(out, '\\');
        push_char(out, 'r');
    } else if c == '\t' {
        push_char(out, '\\');
        push_char(out, 't');
    } else if (c as u32) < 0x20 {
        let v = c as u32;
        push_char(out, '\\');
        push_char(out, 'u');
        push_char(out, '0');
        push_char(out, '0');
        push_char(out, hex_char(v / 16));
        push_char(out, hex_char(v % 16));
    } else {
        push_char(out, c);
    }
    assert(out@ =~= before + escape_char(c));
}

/// The value of a hexadecimal digit character, either case.
pub open spec fn hex_value(c: char) -> Option<int> {
    if 48 <= (c as int) <= 57 {
        Some(c as int - 48)
    } else if 97 <= (c as int) <= 102 {
        Some(c as int - 87)
    } else if 65 <= (c as int) <= 70 {
        Some(c as int - 55)
    } else {
        None
    }
}

/// `c` in front of the text `r`, where there is one.
pub open spec fn prepend(c: char, r: Option<Seq<char>>) -> Option<Seq<char>> {
    match r {
        Some(x) => Some(seq![c] + x),
        None => None,
    }
}

/// The character a JSON `\uXXXX` escape stands for, where its four digits
/// are hexadecimal and name a character outside the surrogate range.
pub open spec fn unicode_escape(t: Seq<char>) -> Option<char> {
    if t.len() >= 6 && hex_value(t[2]) is Some && hex_value(t[3]) is Some && hex_value(t[4]) is Some
        && hex_value(t[5]) is Some {
        let code = 4096 * hex_value(t[2])->0 + 256 * hex_value(t[3])->0 + 16 * hex_value(t[4])->0
            + hex_value(t[5])->0;
        if 0xD800 <= code <= 0xDFFF {
            None
        } else {
            Some(code as char)
        }
    } else {
        None
    }
}

/// Reads back the characters of the body of a JSON string (the text between
/// its quotes), as a JSON parser does; `None` where the text is not one (a
/// bare quote or control character, or a malformed escape). Surrogate pairs
/// are not read.
pub open spec fn json_unescaped(t: Seq<char>) -> Option<Seq<char>>
    decreases t.len(),
{
    if t.len() == 0 {
        Some(seq![])
    } else if t[0] == '\\' {
        if t.len() < 2 {
            None
        } else if t[1] == '"' || t[1] == '\\' || t[1] == '/' {
            prepend(t[1], json_unescaped(t.skip(2)))
        } else if t[1] == 'n' {
            prepend('\n', json_unescaped(t.skip(2)))
        } else if t[1] == 'r' {
            prepend('\r', json_unescaped(t.skip(2)))
        } else if t[1] == 't' {
            prepend('\t', json_unescaped(t.skip(2)))
        } else if t[1] == 'b' {
            prepend('\u{8}', json_unescaped(t.skip(2)))
        } else if t[1] == 'f' {
            prepend('\u{c}', json_unescaped(t.skip(2)))
        } else if t[1] == 'u' && unicode_escape(t) is Some {
            prepend(unicode_escape(t)->0, json_unescaped(t.skip(6)))
        } else {
            None
        }
    } else if t[0] == '"' || (t[0] as int) < 0x20 {
        None
    } else {
        prepend(t[0], json_unescaped(t.skip(1)))
    }
}

pub proof fn lemma_escaped_concat(a: Seq<char>, b: Seq<char>)
    ensures
        json_escaped(a + b) == json_escaped(a) + json_escaped(b),
    decreases b.len(),
{
    if b.len() == 0 {
        assert(a + b =~= a);
        assert(json_escaped(a) + json_escaped(b) =~= json_escaped(a));
    } else {
        lemma_escaped_concat(a, b.drop_last());
        assert((a + b).drop_last() =~= a + b.drop_last());
        assert((a + b).last() == b.last());
        assert(json_escaped(a) + json_escaped(b) =~= json_escaped(a) + json_escaped(b.drop_last())
            + escape_char(b.last()));
    }
}

pub proof fn lemma_hex_digit_value(d: int)
    requires
        0 <= d < 16,
    ensures
        hex_value(hex_digit(d)) == Some(d),
{
}

proof fn lemma_unescape_char(c: char, rest: Seq<char>)
    ensures
        json_unescaped(escape_char(c) + rest) == prepend(c, json_unescaped(rest)),
{
    let t = escape_char(c) + rest;
    if c == '"' || c == '\\' || c == '\n' || c == '\r' || c == '\t' {
        assert(t.skip(2) =~= rest);
    } else if (c as int) < 0x20 {
        let v = c as int;
        lemma_hex_digit_value(v / 16);
        lemma_hex_digit_value(v % 16);
        assert(t[2] == '0' && t[3] == '0');
        assert(hex_value(t[2]) == Some(0int));
        assert(hex_value(t[3]) == Some(0int));
        assert(unicode_escape(t) == Some(c));
        assert(t.skip(6) =~= rest);
    } else {
        assert(t.skip(1) =~= rest);
    }
}

/// Escaping loses nothing: a JSON parser reads back exactly the string that
/// was escaped, so any text can stand inside the quotes of a message.
pub proof fn lemma_json_escape_round_trips(s: Seq<char>)
    ensures
        json_unescaped(json_escaped(s)) == Some(s),
    decreases s.len(),
{
    if s.len() == 0 {
    } else {
        let rest = s.skip(1);
        assert(s =~= seq![s[0]] + rest);
        lemma_escaped_concat(seq![s[0]], rest);
        let one = seq![s[0]];
        assert(one.drop_last() =~= Seq::<char>::empty());
        assert(one.last() == s[0]);
        assert(json_escaped(one.drop_last()) =~= Seq::<char>::empty());
        assert(json_escaped(one) =~= escape_char(s[0]));
        lemma_unescape_char(s[0], json_escaped(rest));
        lemma_json_escape_round_trips(rest);
        assert(seq![s[0]] + rest =~= s);
    }
}

/// Escapes a string for inclusion inside JSON double quotes.
pub fn json_escape(s: &str) -> (out: String)
    ensures
        out@ == json_escaped(s@),
{
    broadcast use vstd::string::group_string_axioms;

    let mut out = String::new();
    for c in it: s.chars()
        invariant
            it.seq() == s@,
            out@ == json_escaped(s@.take(it.index())),
    {
        assert(s@.take(it.index() + 1).drop_last() =~= s@.take(it.index()));
        push_escaped(&mut out, c);
    }
    assert(s@.take(s@.len() as int) =~= s@);
    out
}

/// The character of a decimal digit.
fn digit_char(d: u64) -> (c: char)
    requires
        d < 10,
    ensures
        c == hex_digit(d as int),
{
    (48u8 + d as u8) as char
}

/// The decimal digits of `n`, most significant first, without leading zeros.
pub open spec fn decimal(n: nat) -> Seq<char>
    decreases n,
{
    if n < 10 {
        seq![hex_digit(n as int)]
    } else {
        decimal(n / 10).push(hex_digit((n % 10) as int))
    }
}

/// The number a run of decimal digits spells.
pub open spec fn decimal_value(s: Seq<char>) -> int
    decreases s.len(),
{
    if s.len() == 0 {
        0
    } else {
        10 * decimal_value(s.drop_last()) + (s.last() as int - 48)
    }
}

/// The digits of `n` spell `n`, are all decimal digits, and start with a
/// zero only for zero itself, as a JSON number must.
pub proof fn lemma_decimal_is_json_number(n: nat)
    ensures
        decimal_value(decimal(n)) == n,
        decimal(n).len() >= 1,
        forall|i: int| 0 <= i < decimal(n).len() ==> 48 <= #[trigger] (decimal(n)[i] as int) <= 57,
        decimal(n)[0] == '0' ==> n == 0,
    decreases n,
{
    if n >= 10 {
        lemma_decimal_is_json_number(n / 10);
        let d = decimal(n);
        assert(d.drop_last() =~= decimal(n / 10));
        assert(d[0] == decimal(n / 10)[0]);
        assert(d.last() == hex_digit((n % 10) as int));
        assert(hex_digit((n % 10) as int) as int == 48 + n % 10);
        assert(n == 10 * (n / 10) + n % 10);
        assert(decimal_value(d) == 10 * decimal_value(d.drop_last()) + (d.last() as int - 48));
    } else {
        let d = decimal(n);
        assert(d.drop_last() =~= Seq::<char>::empty());
        assert(decimal_value(d.drop_last()) == 0);
        assert(hex_digit(n as int) as int == 48 + n);
        assert(decimal_value(d) == 10 * decimal_value(d.drop_last()) + (d.last() as int - 48));
    }
}

fn push_decimal(out: &mut String, n: u64)
    ensures
        final(out)@ == old(out)@ + decimal(n as nat),
    decreases n,
{
    let ghost before = out@;
    if n >= 10 {
        push_decimal(out, n / 10);
    }
    push_char(out, digit_char(n % 10));
    assert(out@ =~= before + decimal(n as nat));
}

/// `true` or `false`, as JSON writes them.
pub open spec fn json_bool(b: bool) -> Seq<char> {
    if b {
        "true"@
    } else {
        "false"@
    }
}

fn push_bool(out: &mut String, b: bool)
    ensures
        final(out)@ == old(out)@ + json_bool(b),
{
    if b {
        out.append("true");
    } else {
        out.append("false");
    }
}

/// The fields of a `gx:event` message after `type` and `v`.
pub open spec fn event_body(e: HostEvent) -> Seq<char> {
    match e {
        HostEvent::Ready => "\"event\":\"ready\""@,
        HostEvent::State(s) => "\"event\":\"state\",\"state\":\""@ + json_escaped(s@) + "\""@,
        HostEvent::Started => "\"event\":\"started\""@,
        HostEvent::GameOver => "\"event\":\"gameover\""@,
        HostEvent::Score(n) => "\"event\":\"score\",\"score\":"@ + decimal(n as nat),
        HostEvent::Paused(p) => "\"event\":\"paused\",\"paused\":"@ + json_bool(p),
        HostEvent::Custom { name, data } => "\"event\":\"custom\",\"name\":\""@ + json_escaped(
            name@,
        ) + "\",\"data\":"@ + data@,
    }
}

/// The `gx:event` wire message for `e`.
pub open spec fn event_message(e: HostEvent) -> Seq<char> {
    "{\"type\":\"gx:event\",\"v\":"@ + decimal(PROTOCOL_VERSION as nat) + ","@ + event_body(e)
        + "}"@
}

/// Encodes a [`HostEvent`] as the `gx:event` wire message.
pub fn encode_event(e: &HostEvent) -> (out: String)
    ensures
        out@ == event_message(*e),
{
    let mut out = String::from_str("{\"type\":\"gx:event\",\"v\":");
    push_decimal(&mut out, PROTOCOL_VERSION as u64);
    out.append(",");
    let ghost head = out@;
    match e {
        HostEvent::Ready => {
            out.append("\"event\":\"ready\"");
        },
        HostEvent::State(s) => {
            out.append("\"event\":\"state\",\"state\":\"");
            out.append(json_escape(s.as_str()).as_str());
            out.append("\"");
        },
        HostEvent::Started => {
            out.append("\"event\":\"started\"");
        },
        HostEvent::GameOver => {
            out.append("\"event\":\"gameover\"");
        },
        HostEvent::Score(n) => {
            out.append("\"event\":\"score\",\"score\":");
            push_decimal(&mut out, *n);
        },
        HostEvent::Paused(p) => {
            out.append("\"event\":\"paused\",\"paused\":");
            push_bool(&mut out, *p);
        },
        HostEvent::Custom { name, data } => {
            out.append("\"event\":\"custom\",\"name\":\"");
            out.append(json_escape(name.as_str()).as_str());
            out.append("\",\"data\":");
            out.append(data.as_str());
        },
    }
    assert(out@ =~= head + event_body(*e));
    out.append("}");
    assert(out@ =~= event_message(*e));
    out
}

/// The game's `gx:hello` wire message.
pub open spec fn hello_message(config: GxConfig, has_touch_controls: bool) -> Seq<char> {
    "{\"type\":\"gx:hello\",\"v\":"@ + decimal(PROTOCOL_VERSION as nat) + ",\"name\":\""@
        + json_escaped(config.name@) + "\",\"aspect\":\""@ + json_escaped(config.aspect@)
        + "\",\"hasTouchControls\":"@ + json_bool(has_touch_controls) + "}"@
}

/// Encodes the game's `gx:hello`.
pub fn encode_hello(config: &GxConfig, has_touch_controls: bool) -> (out: String)
    ensures
        out@ == hello_message(*config, has_touch_controls),
{
    let mut out = String::from_str("{\"type\":\"gx:hello\",\"v\":");
    push_decimal(&mut out, PROTOCOL_VERSION as u64);
    out.append(",\"name\":\"");
    out.append(json_escape(config.name.as_str()).as_str());
    out.append("\",\"aspect\":\"");
    out.append(json_escape(config.aspect.as_str()).as_str());
    out.append("\",\"hasTouchControls\":");
    push_bool(&mut out, has_touch_controls);
    out.append("}");
    assert(out@ =~= hello_message(*config, has_touch_controls));
    out
}

/// Whether two strings hold the same characters.
fn same_text(a: &str, b: &str) -> (r: bool)
    ensures
        r == (a@ == b@),
{
    let n = a.unicode_len();
    if n != b.unicode_len() {
        return false;
    }
    for i in 0..n
        invariant
            n == a@.len(),
            n == b@.len(),
            forall|j: int| 0 <= j < i ==> a@[j] == b@[j],
    {
        if a.get_char(i) != b.get_char(i) {
            return false;
        }
    }
    assert(a@ =~= b@);
    true
}

/// The command a short string from the web glue stands for:
/// `hello:1|0`, `pause`, `resume`, `mute:1|0`.
pub open spec fn command_of(s: Seq<char>) -> Option<HostCommand> {
    if s == "pause"@ {
        Some(HostCommand::Pause)
    } else if s == "resume"@ {
        Some(HostCommand::Resume)
    } else if s == "mute:1"@ {
        Some(HostCommand::Mute(true))
    } else if s == "mute:0"@ {
        Some(HostCommand::Mute(false))
    } else if s == "hello:1"@ {
        Some(HostCommand::Hello { host_has_controls: true })
    } else if s == "hello:0"@ {
        Some(HostCommand::Hello { host_has_controls: false })
    } else {
        None
    }
}

/// The short string the web glue queues for each command.
pub open spec fn command_text(c: HostCommand) -> Seq<char> {
    match c {
        HostCommand::Pause => "pause"@,
        HostCommand::Resume => "resume"@,
        HostCommand::Mute(true) => "mute:1"@,
        HostCommand::Mute(false) => "mute:0"@,
        HostCommand::Hello { host_has_controls: true } => "hello:1"@,
        HostCommand::Hello { host_has_controls: false } => "hello:0"@,
    }
}

/// Every queued command string decodes to its command, and a string decodes
/// to a command only if it is that command's string: nothing else is read
/// as a command.
pub proof fn lemma_command_strings(c: HostCommand, t: Seq<char>)
    ensures
        command_of(command_text(c)) == Some(c),
        command_of(t) == Some(c) ==> t == command_text(c),
{
    broadcast use vstd::string::group_string_axioms;

    reveal_strlit("pause");
    reveal_strlit("resume");
    reveal_strlit("mute:1");
    reveal_strlit("mute:0");
    reveal_strlit("hello:1");
    reveal_strlit("hello:0");
    assert("pause"@.len() != "resume"@.len());
    assert("mute:1"@[5] != "mute:0"@[5]);
    assert("hello:1"@[6] != "hello:0"@[6]);
    assert("mute:1"@[0] != "hello:1"@[0]);
}

/// Decodes the short command strings the web glue queues.
pub fn parse_command(s: &str) -> (c: Option<HostCommand>)
    ensures
        c == command_of(s@),
{
    if same_text(s, "pause") {
        Some(HostCommand::Pause)
    } else if same_text(s, "resume") {
        Some(HostCommand::Resume)
    } else if same_text(s, "mute:1") {
        Some(HostCommand::Mute(true))
    } else if same_text(s, "mute:0") {
        Some(HostCommand::Mute(false))
    } else if same_text(s, "hello:1") {
        Some(HostCommand::Hello { host_has_controls: true })
    } else if same_text(s, "hello:0") {
        Some(HostCommand::Hello { host_has_controls: false })
    } else {
        None
    }
}

/// The texts of `list`, separated by commas.
pub open spec fn comma_joined(list: Seq<Seq<char>>) -> Seq<char>
    decreases list.len(),
{
    if list.len() == 0 {
        seq![]
    } else if list.len() == 1 {
        list[0]
    } else {
        comma_joined(list.drop_last()) + seq![','] + list.last()
    }
}

/// The extra host origins as the comma-separated list the web glue takes.
pub fn join_origins(origins: &Vec<String>) -> (out: String)
    ensures
        out@ == comma_joined(origins@.map_values(|o: String| o@)),
        // Origins without commas split back out of the list whole and in order.
        origins@.len() >= 1 && (forall|i: int|
            0 <= i < origins@.len() ==> !(#[trigger] origins@[i])@.contains(','))
            ==> split_commas(out@) == origins@.map_values(|o: String| o@),
{
    let ghost texts = origins@.map_values(|o: String| o@);
    let mut out = String::new();
    let n = origins.len();
    for i in 0..n
        invariant
            n == origins@.len(),
            texts == origins@.map_values(|o: String| o@),
            out@ == comma_joined(texts.take(i as int)),
    {
        proof {
            reveal_strlit(",");
        }
        assert(texts.take(i + 1).drop_last() =~= texts.take(i as int));
        assert(texts[i as int] == origins@[i as int]@);
        if i != 0 {
            out.append(",");
        }
        out.append(origins[i].as_str());
    }
    assert(texts.take(n as int) =~= texts);
    proof {
        if n >= 1 && (forall|i: int| 0 <= i < origins@.len() ==> !(#[trigger] origins@[i])@.contains(',')) {
            assert forall|i: int| 0 <= i < texts.len() implies !(#[trigger] texts[i]).contains(',') by {
                assert(texts[i] == origins@[i]@);
            }
            lemma_comma_joined_splits(texts);
        }
    }
    out
}

/// The `state` event for a transition that entered the state named
/// `entered` (if any); `left_same_state` says the state left is that same
/// state. One is posted when a state was entered that differs from the one
/// left.
pub fn state_event(entered: Option<String>, left_same_state: bool) -> (r: Option<HostEvent>)
    ensures
        match entered {
            None => r is None,
            Some(n) => if left_same_state {
                r is None
            } else {
                r == Some(HostEvent::State(n))
            },
        },
{
    match entered {
        None => None,
        Some(n) => {
            if left_same_state {
                None
            } else {
                Some(HostEvent::State(n))
            }
        },
    }
}

/// A character that JSON escaping leaves as it is.
pub open spec fn plain(c: char) -> bool {
    c != '"' && c != '\\' && (c as int) >= 0x20
}

proof fn lemma_plain_escaped(s: Seq<char>)
    requires
        forall|i: int| 0 <= i < s.len() ==> plain(#[trigger] s[i]),
    ensures
        json_escaped(s) == s,
    decreases s.len(),
{
    if s.len() > 0 {
        lemma_plain_escaped(s.drop_last());
        assert(plain(s[s.len() - 1]));
        assert(escape_char(s.last()) =~= seq![s.last()]);
        assert(s.drop_last() + seq![s.last()] =~= s);
    }
}

/// The name a `gx:event` message gives the event.
pub open spec fn event_name(e: HostEvent) -> Seq<char> {
    match e {
        HostEvent::Ready => "ready"@,
        HostEvent::State(_) => "state"@,
        HostEvent::Started => "started"@,
        HostEvent::GameOver => "gameover"@,
        HostEvent::Score(_) => "score"@,
        HostEvent::Paused(_) => "paused"@,
        HostEvent::Custom { .. } => "custom"@,
    }
}

/// The JSON object a `gx:event` message for `e` stands for: `type`, `v` and
/// `event`, then the event's own fields. `data` is what a custom event's
/// data text stands for.
pub open spec fn event_json(e: HostEvent, data: Json) -> Json {
    Json::Object(
        seq![
            ("type"@, Json::Str("gx:event"@)),
            ("v"@, Json::Number(decimal(PROTOCOL_VERSION as nat))),
            ("event"@, Json::Str(event_name(e))),
        ] + match e {
            HostEvent::State(s) => seq![("state"@, Json::Str(s@))],
            HostEvent::Score(n) => seq![("score"@, Json::Number(decimal(n as nat)))],
            HostEvent::Paused(p) => seq![("paused"@, Json::Bool(p))],
            HostEvent::Custom { name, data: _ } => seq![
                ("name"@, Json::Str(name@)),
                ("data"@, data),
            ],
            _ => seq![],
        },
    )
}

/// The members of the `gx:event` message for `e`, as keys and value texts.
pub open spec fn event_member_texts(e: HostEvent) -> Seq<(Seq<char>, Seq<char>)> {
    seq![
        ("type"@, str_text("gx:event"@)),
        ("v"@, decimal(PROTOCOL_VERSION as nat)),
        ("event"@, str_text(event_name(e))),
    ] + match e {
        HostEvent::State(s) => seq![("state"@, str_text(s@))],
        HostEvent::Score(n) => seq![("score"@, decimal(n as nat))],
        HostEvent::Paused(p) => seq![("paused"@, json_bool(p))],
        HostEvent::Custom { name, data } => seq![("name"@, str_text(name@)), ("data"@, data@)],
        _ => seq![],
    }
}

/// The values those member texts stand for.
pub open spec fn event_member_values(e: HostEvent, data: Json) -> Seq<Json> {
    match event_json(e, data) {
        Json::Object(ms) => Seq::new(ms.len(), |i: int| ms[i].1),
        _ => seq![],
    }
}

proof fn lemma_members_text_concat(a: Seq<(Seq<char>, Seq<char>)>, b: Seq<(Seq<char>, Seq<char>)>)
    requires
        a.len() >= 1,
        b.len() >= 1,
    ensures
        members_text(a + b) == members_text(a) + seq![','] + members_text(b),
    decreases a.len(),
{
    if a.len() == 1 {
        assert((a + b).skip(1) =~= b);
        assert((a + b)[0] == a[0]);
    } else {
        lemma_members_text_concat(a.skip(1), b);
        assert((a + b).skip(1) =~= a.skip(1) + b);
        assert((a + b)[0] == a[0]);
    }
}

proof fn lemma_event_keys()
    ensures
        json_escaped("type"@) == "type"@,
        json_escaped("gx:event"@) == "gx:event"@,
        json_escaped("v"@) == "v"@,
        json_escaped("event"@) == "event"@,
        json_escaped("state"@) == "state"@,
        json_escaped("score"@) == "score"@,
        json_escaped("paused"@) == "paused"@,
        json_escaped("name"@) == "name"@,
        json_escaped("data"@) == "data"@,
        json_escaped("ready"@) == "ready"@,
        json_escaped("started"@) == "started"@,
        json_escaped("gameover"@) == "gameover"@,
        json_escaped("custom"@) == "custom"@,
        "}"@ == seq!['}'],
        "\""@ == seq!['"'],
{
    broadcast use vstd::string::group_string_axioms;

    reveal_strlit("type");
    reveal_strlit("gx:event");
    reveal_strlit("v");
    reveal_strlit("event");
    reveal_strlit("state");
    reveal_strlit("score");
    reveal_strlit("paused");
    reveal_strlit("name");
    reveal_strlit("data");
    reveal_strlit("ready");
    reveal_strlit("started");
    reveal_strlit("gameover");
    reveal_strlit("custom");
    reveal_strlit("}");
    reveal_strlit("\"");
    lemma_plain_escaped("type"@);
    lemma_plain_escaped("gx:event"@);
    lemma_plain_escaped("v"@);
    lemma_plain_escaped("event"@);
    lemma_plain_escaped("state"@);
    lemma_plain_escaped("score"@);
    lemma_plain_escaped("paused"@);
    lemma_plain_escaped("name"@);
    lemma_plain_escaped("data"@);
    lemma_plain_escaped("ready"@);
    lemma_plain_escaped("started"@);
    lemma_plain_escaped("gameover"@);
    lemma_plain_escaped("custom"@);
    assert("}"@ =~= seq!['}']);
    assert("\""@ =~= seq!['"']);
}

proof fn lemma_event_head()
    ensures
        "{\"type\":\"gx:event\",\"v\":"@ + decimal(PROTOCOL_VERSION as nat) + ","@ == seq!['{']
            + member_text("type"@, str_text("gx:event"@)) + seq![','] + member_text(
            "v"@,
            decimal(PROTOCOL_VERSION as nat),
        ) + seq![','],
{
    broadcast use vstd::string::group_string_axioms;

    lemma_event_keys();
    reveal_strlit("type");
    reveal_strlit("gx:event");
    reveal_strlit("v");
    reveal_strlit("{\"type\":\"gx:event\",\"v\":");
    reveal_strlit(",");
    assert(decimal(PROTOCOL_VERSION as nat) =~= seq!['1']);
    assert("{\"type\":\"gx:event\",\"v\":"@ + decimal(PROTOCOL_VERSION as nat) + ","@ =~= seq![
        '{',
    ] + member_text("type"@, str_text("gx:event"@)) + seq![','] + member_text(
        "v"@,
        decimal(PROTOCOL_VERSION as nat),
    ) + seq![',']);
}

/// The event-naming member of a `gx:event`, and the key that follows it.
proof fn lemma_event_body_literals()
    ensures
        "\"event\":\"ready\""@ == member_text("event"@, str_text("ready"@)),
        "\"event\":\"started\""@ == member_text("event"@, str_text("started"@)),
        "\"event\":\"gameover\""@ == member_text("event"@, str_text("gameover"@)),
        "\"event\":\"state\",\"state\":\""@ == member_text("event"@, str_text("state"@))
            + seq![','] + seq!['"'] + "state"@ + seq!['"', ':', '"'],
        "\"event\":\"score\",\"score\":"@ == member_text("event"@, str_text("score"@))
            + seq![','] + seq!['"'] + "score"@ + seq!['"', ':'],
        "\"event\":\"paused\",\"paused\":"@ == member_text("event"@, str_text("paused"@))
            + seq![','] + seq!['"'] + "paused"@ + seq!['"', ':'],
        "\"event\":\"custom\",\"name\":\""@ == member_text("event"@, str_text("custom"@))
            + seq![','] + seq!['"'] + "name"@ + seq!['"', ':', '"'],
        "\",\"data\":"@ == seq!['"', ','] + seq!['"'] + "data"@ + seq!['"', ':'],
{
    lemma_event_keys();
    assert("\"event\":\"ready\""@ =~= member_text("event"@, str_text("ready"@))) by {
        broadcast use vstd::string::group_string_axioms;

    reveal_strlit("\"event\":\"ready\"");
    reveal_strlit("event");
    reveal_strlit("ready");
    }
    assert("\"event\":\"started\""@ =~= member_text("event"@, str_text("started"@))) by {
        broadcast use vstd::string::group_string_axioms;

    reveal_strlit("\"event\":\"started\"");
    reveal_strlit("event");
    reveal_strlit("started");
    }
    assert("\"event\":\"gameover\""@ =~= member_text("event"@, str_text("gameover"@))) by {
        broadcast use vstd::string::group_string_axioms;

    reveal_strlit("\"event\":\"gameover\"");
    reveal_strlit("event");
    reveal_strlit("gameover");
    }
    assert("\"event\":\"state\",\"state\":\""@ =~= member_text("event"@, str_text("state"@))
        + seq![','] + seq!['"'] + "state"@ + seq!['"', ':', '"']) by {
        broadcast use vstd::string::group_string_axioms;

    reveal_strlit("\"event\":\"state\",\"state\":\"");
    reveal_strlit("event");
    reveal_strlit("state");
    }
    assert("\"event\":\"score\",\"score\":"@ =~= member_text("event"@, str_text("score"@))
        + seq![','] + seq!['"'] + "score"@ + seq!['"', ':']) by {
        broadcast use vstd::string::group_string_axioms;

    reveal_strlit("\"event\":\"score\",\"score\":");
    reveal_strlit("event");
    reveal_strlit("score");
    }
    assert("\"event\":\"paused\",\"paused\":"@ =~= member_text("event"@, str_text("paused"@))
        + seq![','] + seq!['"'] + "paused"@ + seq!['"', ':']) by {
        broadcast use vstd::string::group_string_axioms;

    reveal_strlit("\"event\":\"paused\",\"paused\":");
    reveal_strlit("event");
    reveal_strlit("paused");
    }
    assert("\"event\":\"custom\",\"name\":\""@ =~= member_text("event"@, str_text("custom"@))
        + seq![','] + seq!['"'] + "name"@ + seq!['"', ':', '"']) by {
        broadcast use vstd::string::group_string_axioms;

    reveal_strlit("\"event\":\"custom\",\"name\":\"");
    reveal_strlit("event");
    reveal_strlit("custom");
    reveal_strlit("name");
    }
    assert("\",\"data\":"@ =~= seq!['"', ','] + seq!['"'] + "data"@ + seq!['"', ':']) by {
        broadcast use vstd::string::group_string_axioms;

    reveal_strlit("\",\"data\":");
    reveal_strlit("data");
    }
}

proof fn lemma_state_rest(s: String)
    ensures
        members_text(event_member_texts(HostEvent::State(s)).skip(2)) == event_body(
            HostEvent::State(s),
        ),
{
    lemma_event_keys();
    lemma_event_body_literals();
    let rest = event_member_texts(HostEvent::State(s)).skip(2);
    let ev = member_text("event"@, str_text("state"@));
    assert(rest =~= seq![("event"@, str_text("state"@)), ("state"@, str_text(s@))]);
    assert(rest.skip(1) =~= seq![("state"@, str_text(s@))]);
    assert(members_text(rest.skip(1)) == member_text("state"@, str_text(s@)));
    assert(members_text(rest) == ev + seq![','] + member_text("state"@, str_text(s@)));
    assert(members_text(rest) =~= event_body(HostEvent::State(s)));
}

proof fn lemma_score_rest(n: u64)
    ensures
        members_text(event_member_texts(HostEvent::Score(n)).skip(2)) == event_body(
            HostEvent::Score(n),
        ),
{
    lemma_event_keys();
    lemma_event_body_literals();
    let rest = event_member_texts(HostEvent::Score(n)).skip(2);
    let ev = member_text("event"@, str_text("score"@));
    assert(rest =~= seq![("event"@, str_text("score"@)), ("score"@, decimal(n as nat))]);
    assert(rest.skip(1) =~= seq![("score"@, decimal(n as nat))]);
    assert(members_text(rest.skip(1)) == member_text("score"@, decimal(n as nat)));
    assert(members_text(rest) == ev + seq![','] + member_text("score"@, decimal(n as nat)));
    assert(members_text(rest) =~= event_body(HostEvent::Score(n)));
}

proof fn lemma_paused_rest(p: bool)
    ensures
        members_text(event_member_texts(HostEvent::Paused(p)).skip(2)) == event_body(
            HostEvent::Paused(p),
        ),
{
    lemma_event_keys();
    lemma_event_body_literals();
    let rest = event_member_texts(HostEvent::Paused(p)).skip(2);
    let ev = member_text("event"@, str_text("paused"@));
    assert(rest =~= seq![("event"@, str_text("paused"@)), ("paused"@, json_bool(p))]);
    assert(rest.skip(1) =~= seq![("paused"@, json_bool(p))]);
    assert(members_text(rest.skip(1)) == member_text("paused"@, json_bool(p)));
    assert(members_text(rest) == ev + seq![','] + member_text("paused"@, json_bool(p)));
    assert(members_text(rest) =~= event_body(HostEvent::Paused(p)));
}

proof fn lemma_custom_rest(name: String, data: String)
    ensures
        members_text(event_member_texts(HostEvent::Custom { name, data }).skip(2)) == event_body(
            HostEvent::Custom { name, data },
        ),
{
    lemma_event_keys();
    lemma_event_body_literals();
    let e = HostEvent::Custom { name, data };
    let rest = event_member_texts(e).skip(2);
    let ev = member_text("event"@, str_text("custom"@));
    assert(rest =~= seq![
        ("event"@, str_text("custom"@)),
        ("name"@, str_text(name@)),
        ("data"@, data@),
    ]);
    assert(rest.skip(1) =~= seq![("name"@, str_text(name@)), ("data"@, data@)]);
    assert(rest.skip(1).skip(1) =~= seq![("data"@, data@)]);
    assert(members_text(rest.skip(1).skip(1)) == member_text("data"@, data@));
    assert(members_text(rest.skip(1)) == member_text("name"@, str_text(name@)) + seq![',']
        + member_text("data"@, data@));
    assert(members_text(rest) == ev + seq![','] + member_text("name"@, str_text(name@))
        + seq![','] + member_text("data"@, data@));
    assert(members_text(rest) =~= event_body(e));
}

proof fn lemma_plain_event_rest(e: HostEvent)
    requires
        e is Ready || e is Started || e is GameOver,
    ensures
        members_text(event_member_texts(e).skip(2)) == event_body(e),
{
    lemma_event_keys();
    lemma_event_body_literals();
    let rest = event_member_texts(e).skip(2);
    assert(rest =~= seq![("event"@, str_text(event_name(e)))]);
    assert(members_text(rest) == member_text("event"@, str_text(event_name(e))));
}

proof fn lemma_event_message_text(e: HostEvent)
    ensures
        event_message(e) == object_text(event_member_texts(e)),
{
    lemma_event_keys();
    lemma_event_head();
    match e {
        HostEvent::State(s) => lemma_state_rest(s),
        HostEvent::Score(n) => lemma_score_rest(n),
        HostEvent::Paused(p) => lemma_paused_rest(p),
        HostEvent::Custom { name, data } => lemma_custom_rest(name, data),
        _ => lemma_plain_event_rest(e),
    }
    let all = event_member_texts(e);
    let head = seq![("type"@, str_text("gx:event"@)), ("v"@, decimal(PROTOCOL_VERSION as nat))];
    let rest = all.skip(2);
    assert(all =~= head + rest);
    lemma_members_text_concat(head, rest);
    assert(head.skip(1) =~= seq![("v"@, decimal(PROTOCOL_VERSION as nat))]);
    assert(members_text(head.skip(1)) == member_text("v"@, decimal(PROTOCOL_VERSION as nat)));
    assert(members_text(head) == member_text("type"@, str_text("gx:event"@)) + seq![',']
        + member_text("v"@, decimal(PROTOCOL_VERSION as nat)));
    assert(event_message(e) =~= object_text(all));
}

/// A `gx:event` message is one JSON object that a reader takes whole:
/// `type` is `gx:event`, `v` is the protocol version, `event` names the
/// event, and the event's own fields follow (`state`, `score`, `paused`, or
/// `name` and `data`) with the values the event carries. A custom event's
/// `data` must be valid JSON text, as its variant requires; `data` is then
/// the value it stands for.
pub proof fn lemma_event_message_is_json(e: HostEvent, data: Json)
    requires
        e matches HostEvent::Custom { data: d, .. } ==> parse_json(d@) == Some(data),
    ensures
        parse_json(event_message(e)) == Some(event_json(e, data)),
{
    lemma_event_message_text(e);
    let ms = event_member_texts(e);
    let vals = event_member_values(e, data);
    lemma_str_value("gx:event"@);
    lemma_decimal_value(PROTOCOL_VERSION as nat);
    lemma_str_value(event_name(e));
    match e {
        HostEvent::State(s) => {
            lemma_str_value(s@);
        },
        HostEvent::Score(n) => {
            lemma_decimal_value(n as nat);
        },
        HostEvent::Paused(p) => {
            lemma_bool_value(p);
        },
        HostEvent::Custom { name, data: d } => {
            lemma_str_value(name@);
            lemma_json_value_text(d@, data);
        },
        _ => {},
    }
    assert forall|i: int| 0 <= i < ms.len() implies value_text_of(#[trigger] ms[i].1, vals[i]) by {
    }
    lemma_object_text(ms, vals);
    assert(Json::Object(read_members(ms, vals)) == event_json(e, data)) by {
        match event_json(e, data) {
            Json::Object(m) => {
                assert(read_members(ms, vals) =~= m);
            },
            _ => {},
        }
    }
}

/// The JSON object the game's `gx:hello` stands for.
pub open spec fn hello_json(config: GxConfig, has_touch_controls: bool) -> Json {
    Json::Object(
        seq![
            ("type"@, Json::Str("gx:hello"@)),
            ("v"@, Json::Number(decimal(PROTOCOL_VERSION as nat))),
            ("name"@, Json::Str(config.name@)),
            ("aspect"@, Json::Str(config.aspect@)),
            ("hasTouchControls"@, Json::Bool(has_touch_controls)),
        ],
    )
}

/// The members of the game's `gx:hello`, as keys and value texts.
pub open spec fn hello_member_texts(config: GxConfig, has_touch_controls: bool) -> Seq<
    (Seq<char>, Seq<char>),
> {
    seq![
        ("type"@, str_text("gx:hello"@)),
        ("v"@, decimal(PROTOCOL_VERSION as nat)),
        ("name"@, str_text(config.name@)),
        ("aspect"@, str_text(config.aspect@)),
        ("hasTouchControls"@, json_bool(has_touch_controls)),
    ]
}

proof fn lemma_hello_head()
    ensures
        "{\"type\":\"gx:hello\",\"v\":"@ + decimal(PROTOCOL_VERSION as nat) + ",\"name\":\""@
            == seq!['{'] + member_text("type"@, str_text("gx:hello"@)) + seq![','] + member_text(
            "v"@,
            decimal(PROTOCOL_VERSION as nat),
        ) + seq![','] + seq!['"'] + "name"@ + seq!['"', ':', '"'],
{
    broadcast use vstd::string::group_string_axioms;

    reveal_strlit("type");
    reveal_strlit("gx:hello");
    reveal_strlit("v");
    reveal_strlit("name");
    reveal_strlit("{\"type\":\"gx:hello\",\"v\":");
    reveal_strlit(",\"name\":\"");
    lemma_plain_escaped("type"@);
    lemma_plain_escaped("gx:hello"@);
    lemma_plain_escaped("v"@);
    assert(decimal(PROTOCOL_VERSION as nat) =~= seq!['1']);
    assert("{\"type\":\"gx:hello\",\"v\":"@ + decimal(PROTOCOL_VERSION as nat) + ",\"name\":\""@
        =~= seq!['{'] + member_text("type"@, str_text("gx:hello"@)) + seq![','] + member_text(
        "v"@,
        decimal(PROTOCOL_VERSION as nat),
    ) + seq![','] + seq!['"'] + "name"@ + seq!['"', ':', '"']);
}

proof fn lemma_hello_keys()
    ensures
        "\",\"aspect\":\""@ == seq!['"', ','] + seq!['"'] + "aspect"@ + seq!['"', ':', '"'],
        "\",\"hasTouchControls\":"@ == seq!['"', ','] + seq!['"'] + "hasTouchControls"@ + seq![
            '"',
            ':',
        ],
        "}"@ == seq!['}'],
        json_escaped("name"@) == "name"@,
        json_escaped("aspect"@) == "aspect"@,
        json_escaped("hasTouchControls"@) == "hasTouchControls"@,
{
    broadcast use vstd::string::group_string_axioms;

    reveal_strlit("name");
    reveal_strlit("aspect");
    reveal_strlit("hasTouchControls");
    reveal_strlit("\",\"aspect\":\"");
    reveal_strlit("\",\"hasTouchControls\":");
    reveal_strlit("}");
    lemma_plain_escaped("name"@);
    lemma_plain_escaped("aspect"@);
    lemma_plain_escaped("hasTouchControls"@);
    assert("\",\"aspect\":\""@ =~= seq!['"', ','] + seq!['"'] + "aspect"@ + seq!['"', ':', '"']);
    assert("\",\"hasTouchControls\":"@ =~= seq!['"', ','] + seq!['"'] + "hasTouchControls"@
        + seq!['"', ':']);
    assert("}"@ =~= seq!['}']);
}

proof fn lemma_hello_members_text(config: GxConfig, has_touch_controls: bool)
    ensures
        members_text(hello_member_texts(config, has_touch_controls)) == member_text(
            "type"@,
            str_text("gx:hello"@),
        ) + seq![','] + member_text("v"@, decimal(PROTOCOL_VERSION as nat)) + seq![',']
            + member_text("name"@, str_text(config.name@)) + seq![','] + member_text(
            "aspect"@,
            str_text(config.aspect@),
        ) + seq![','] + member_text("hasTouchControls"@, json_bool(has_touch_controls)),
{
    let ms = hello_member_texts(config, has_touch_controls);
    let m2 = ms[2];
    let m3 = ms[3];
    let m4 = ms[4];
    assert(ms.skip(1).skip(1).skip(1).skip(1) =~= seq![m4]);
    assert(ms.skip(1).skip(1).skip(1) =~= seq![m3, m4]);
    assert(ms.skip(1).skip(1) =~= seq![m2, m3, m4]);
    assert(members_text(ms.skip(1).skip(1).skip(1).skip(1)) == member_text(m4.0, m4.1));
    assert(members_text(ms.skip(1).skip(1).skip(1)) == member_text(m3.0, m3.1) + seq![',']
        + member_text(m4.0, m4.1));
    assert(members_text(ms.skip(1).skip(1)) == member_text(m2.0, m2.1) + seq![',']
        + members_text(ms.skip(1).skip(1).skip(1)));
    assert(members_text(ms.skip(1)) == member_text(ms[1].0, ms[1].1) + seq![',']
        + members_text(ms.skip(1).skip(1)));
    assert(members_text(ms) == member_text(ms[0].0, ms[0].1) + seq![','] + members_text(
        ms.skip(1),
    ));
    assert(members_text(ms) =~= member_text("type"@, str_text("gx:hello"@)) + seq![',']
        + member_text("v"@, decimal(PROTOCOL_VERSION as nat)) + seq![','] + member_text(
        "name"@,
        str_text(config.name@),
    ) + seq![','] + member_text("aspect"@, str_text(config.aspect@)) + seq![','] + member_text(
        "hasTouchControls"@,
        json_bool(has_touch_controls),
    ));
}

proof fn lemma_hello_message_text(config: GxConfig, has_touch_controls: bool)
    ensures
        hello_message(config, has_touch_controls) == object_text(
            hello_member_texts(config, has_touch_controls),
        ),
{
    lemma_hello_head();
    lemma_hello_keys();
    lemma_hello_members_text(config, has_touch_controls);
    assert(hello_message(config, has_touch_controls) =~= object_text(
        hello_member_texts(config, has_touch_controls),
    ));
}

/// The game's `gx:hello` is one JSON object that a reader takes whole, with
/// `type` `gx:hello`, `v` the protocol version, the configured `name` and
/// `aspect`, and `hasTouchControls`, whatever the name and aspect hold.
pub proof fn lemma_hello_message_is_json(config: GxConfig, has_touch_controls: bool)
    ensures
        parse_json(hello_message(config, has_touch_controls)) == Some(
            hello_json(config, has_touch_controls),
        ),
{
    lemma_hello_message_text(config, has_touch_controls);
    let ms = hello_member_texts(config, has_touch_controls);
    let one = decimal(PROTOCOL_VERSION as nat);
    let vals = seq![
        Json::Str("gx:hello"@),
        Json::Number(one),
        Json::Str(config.name@),
        Json::Str(config.aspect@),
        Json::Bool(has_touch_controls),
    ];
    lemma_str_value("gx:hello"@);
    lemma_decimal_value(PROTOCOL_VERSION as nat);
    lemma_str_value(config.name@);
    lemma_str_value(config.aspect@);
    lemma_bool_value(has_touch_controls);
    assert forall|i: int| 0 <= i < ms.len() implies value_text_of(#[trigger] ms[i].1, vals[i]) by {
    }
    lemma_object_text(ms, vals);
    match hello_json(config, has_touch_controls) {
        Json::Object(m) => {
            assert(read_members(ms, vals) =~= m);
        },
        _ => {},
    }
}

} // verus!
