//! The command line that a sandbox is asked to run.
use crate::string_map::{lemma_sorted_keys_exist, sorted_keys, StringMap};
use crate::text::{
    ascii_alphanumeric, ascii_letter, chars_of, concat3, is_ascii_alphanumeric, is_ascii_letter,
    joined,
};
use vstd::prelude::*;

verus! {

/// A name that an environment variable can have.
pub open spec fn is_env_key(key: Seq<char>) -> bool {
    &&& key.len() > 0
    &&& key[0] == '_' || is_ascii_letter(key[0])
    &&& forall|i: int|
        0 < i < key.len() ==> #[trigger] key[i] == '_' || is_ascii_alphanumeric(key[i])
}

/// Whether `key` matches `^[A-Za-z_][A-Za-z0-9_]*$`.
pub fn is_valid_env_key(key: &str) -> (r: bool)
    ensures
        r == is_env_key(key@),
{
    let chars = chars_of(key);
    if chars.len() == 0 {
        return false;
    }
    if !(chars[0] == '_' || ascii_letter(chars[0])) {
        return false;
    }
    for i in 1..chars.len()
        invariant
            chars@ == key@,
            chars@.len() > 0,
            forall|j: int|
                0 < j < i ==> #[trigger] chars@[j] == '_' || is_ascii_alphanumeric(chars@[j]),
    {
        if !(chars[i] == '_' || ascii_alphanumeric(chars[i])) {
            return false;
        }
    }
    true
}

/// A character that the shell reads as itself outside of quotes.
pub open spec fn is_plain(c: char) -> bool {
    is_ascii_alphanumeric(c) || c == '.' || c == '/' || c == '-' || c == '_'
}

/// `value` with each single quote closed, put between double quotes, and opened again.
pub open spec fn requoted(value: Seq<char>) -> Seq<char>
    decreases value.len(),
{
    if value.len() == 0 {
        Seq::empty()
    } else if value.last() == '\'' {
        requoted(value.drop_last()) + seq!['\'', '"', '\'', '"', '\'']
    } else {
        requoted(value.drop_last()).push(value.last())
    }
}

/// `value` written so that the shell reads it as one word.
pub open spec fn shell_word(value: Seq<char>) -> Seq<char> {
    if value.len() == 0 {
        seq!['\'', '\'']
    } else if forall|i: int| 0 <= i < value.len() ==> is_plain(#[trigger] value[i]) {
        value
    } else {
        seq!['\''] + requoted(value) + seq!['\'']
    }
}

/// `value` written so that the shell reads it as one word.
pub fn shell_escape(value: &str) -> (r: String)
    ensures
        r@ == shell_word(value@),
{
    let chars = chars_of(value);
    let mut r = String::new();
    if chars.len() == 0 {
        r.push('\'');
        r.push('\'');
        assert(r@ =~= seq!['\'', '\'']);
        return r;
    }
    let mut plain = true;
    for i in 0..chars.len()
        invariant
            chars@ == value@,
            plain == (forall|j: int| 0 <= j < i ==> is_plain(#[trigger] chars@[j])),
    {
        let c = chars[i];
        if !(ascii_alphanumeric(c) || c == '.' || c == '/' || c == '-' || c == '_') {
            assert(!is_plain(chars@[i as int]));
            plain = false;
        }
    }
    if plain {
        return value.to_owned();
    }
    r.push('\'');
    for i in 0..chars.len()
        invariant
            chars@ == value@,
            r@ == seq!['\''] + requoted(value@.take(i as int)),
    {
        let ghost before = r@;
        proof {
            assert(value@.take(i + 1).drop_last() =~= value@.take(i as int));
            assert(value@.take(i + 1).last() == value@[i as int]);
        }
        if chars[i] == '\'' {
            r.push('\'');
            r.push('"');
            r.push('\'');
            r.push('"');
            r.push('\'');
            assert(r@ =~= before + seq!['\'', '"', '\'', '"', '\'']);
            assert(r@ =~= seq!['\''] + requoted(value@.take(i + 1)));
        } else {
            r.push(chars[i]);
            assert(r@ =~= seq!['\''] + requoted(value@.take(i + 1)));
        }
    }
    r.push('\'');
    proof {
        assert(value@.take(value@.len() as int) =~= value@);
        assert(r@ =~= seq!['\''] + requoted(value@) + seq!['\'']);
    }
    r
}

/// How the shell is reading: outside of quotes, or inside one of the two kinds.
pub enum Quoting {
    Bare,
    Single,
    Double,
}

/// Where a shell stands in the middle of a simple command.
pub struct Reading {
    /// The words read so far.
    pub words: Seq<Seq<char>>,
    /// The word being read, if one has begun.
    pub word: Option<Seq<char>>,
    pub quoting: Quoting,
    /// Something was met that is not read as itself.
    pub special: bool,
}

/// A shell at the start of a command.
pub open spec fn at_start() -> Reading {
    Reading { words: Seq::empty(), word: None, quoting: Quoting::Bare, special: false }
}

/// The word being read with `c` behind it.
pub open spec fn extended(word: Option<Seq<char>>, c: char) -> Option<Seq<char>> {
    match word {
        Some(w) => Some(w.push(c)),
        None => Some(seq![c]),
    }
}

/// The word being read, begun if need be.
pub open spec fn begun(word: Option<Seq<char>>) -> Option<Seq<char>> {
    match word {
        Some(w) => Some(w),
        None => Some(Seq::empty()),
    }
}

/// How a shell goes on over the character `c`. A space ends a word; a quote opens
/// or closes a quoted part; inside single quotes every character stands for
/// itself; inside double quotes all but a few do; outside of quotes only plain
/// characters and the equals sign do.
pub open spec fn read_char(st: Reading, c: char) -> Reading {
    match st.quoting {
        Quoting::Bare => if c == ' ' {
            match st.word {
                Some(w) => Reading { words: st.words.push(w), word: None, ..st },
                None => st,
            }
        } else if c == '\'' {
            Reading { word: begun(st.word), quoting: Quoting::Single, ..st }
        } else if c == '"' {
            Reading { word: begun(st.word), quoting: Quoting::Double, ..st }
        } else if is_plain(c) || c == '=' {
            Reading { word: extended(st.word, c), ..st }
        } else {
            Reading { special: true, ..st }
        },
        Quoting::Single => if c == '\'' {
            Reading { quoting: Quoting::Bare, ..st }
        } else {
            Reading { word: extended(st.word, c), ..st }
        },
        Quoting::Double => if c == '"' {
            Reading { quoting: Quoting::Bare, ..st }
        } else if c == '\\' || c == '$' || c == '`' || c == '!' {
            Reading { special: true, ..st }
        } else {
            Reading { word: extended(st.word, c), ..st }
        },
    }
}

/// How a shell goes on over `text`.
pub open spec fn read_text(st: Reading, text: Seq<char>) -> Reading
    decreases text.len(),
{
    if text.len() == 0 {
        st
    } else {
        read_char(read_text(st, text.drop_last()), text.last())
    }
}

/// The words that a shell makes of `text`, where it takes every one of them as it
/// stands and every quote is closed.
pub open spec fn shell_words(text: Seq<char>) -> Option<Seq<Seq<char>>> {
    let end = read_text(at_start(), text);
    if end.special || end.quoting != Quoting::Bare {
        None
    } else {
        match end.word {
            Some(w) => Some(end.words.push(w)),
            None => Some(end.words),
        }
    }
}

proof fn lemma_read_concat(st: Reading, a: Seq<char>, b: Seq<char>)
    ensures
        read_text(st, a + b) == read_text(read_text(st, a), b),
    decreases b.len(),
{
    if b.len() == 0 {
        assert(a + b =~= a);
    } else {
        assert((a + b).drop_last() =~= a + b.drop_last());
        lemma_read_concat(st, a, b.drop_last());
    }
}

/// Five characters that close a quoted part, write a quote, and open it again.
proof fn lemma_read_quote(st: Reading, w: Seq<char>)
    requires
        st.quoting == Quoting::Single,
        st.word == Some(w),
    ensures
        read_text(st, seq!['\'', '"', '\'', '"', '\'']) == (Reading {
            word: Some(w.push('\'')),
            ..st
        }),
{
    let t = seq!['\'', '"', '\'', '"', '\''];
    reveal_with_fuel(read_text, 6);
    assert(t.drop_last() =~= seq!['\'', '"', '\'', '"']);
    assert(t.drop_last().drop_last() =~= seq!['\'', '"', '\'']);
    assert(t.drop_last().drop_last().drop_last() =~= seq!['\'', '"']);
    assert(t.drop_last().drop_last().drop_last().drop_last() =~= seq!['\'']);
    assert(t.drop_last().drop_last().drop_last().drop_last().drop_last() =~= Seq::<char>::empty());
}

proof fn lemma_read_requoted(st: Reading, w: Seq<char>, value: Seq<char>)
    requires
        st.quoting == Quoting::Single,
        st.word == Some(w),
    ensures
        read_text(st, requoted(value)) == (Reading { word: Some(w + value), ..st }),
    decreases value.len(),
{
    if value.len() == 0 {
        assert(w + value =~= w);
    } else {
        let init = value.drop_last();
        let c = value.last();
        lemma_read_requoted(st, w, init);
        let mid = Reading { word: Some(w + init), ..st };
        assert((w + init).push(c) =~= w + value);
        if c == '\'' {
            lemma_read_concat(st, requoted(init), seq!['\'', '"', '\'', '"', '\'']);
            lemma_read_quote(mid, w + init);
        } else {
            assert(requoted(value).drop_last() =~= requoted(init));
        }
    }
}

proof fn lemma_read_plain(st: Reading, w: Option<Seq<char>>, value: Seq<char>)
    requires
        st.quoting == Quoting::Bare,
        st.word == w,
        value.len() > 0,
        forall|i: int|
            0 <= i < value.len() ==> is_plain(#[trigger] value[i]) || value[i] == '=',
    ensures
        read_text(st, value) == (Reading { word: Some(begun(w)->0 + value), ..st }),
    decreases value.len(),
{
    let init = value.drop_last();
    let c = value.last();
    assert(value[value.len() - 1] == c);
    if init.len() == 0 {
        assert(read_text(st, init) == st);
        assert(begun(w)->0 + value =~= extended(w, c)->0);
    } else {
        assert forall|i: int| 0 <= i < init.len() implies is_plain(#[trigger] init[i]) || init[i]
            == '=' by {
            assert(init[i] == value[i]);
        }
        lemma_read_plain(st, w, init);
        assert((begun(w)->0 + init).push(c) =~= begun(w)->0 + value);
    }
}

/// A shell outside of quotes reads `shell_word(value)` as `value`, behind what it
/// has of the word.
proof fn lemma_read_shell_word(st: Reading, value: Seq<char>)
    requires
        st.quoting == Quoting::Bare,
    ensures
        read_text(st, shell_word(value)) == (Reading {
            word: Some(begun(st.word)->0 + value),
            ..st
        }),
{
    let w = begun(st.word)->0;
    let quote = seq!['\''];
    assert(quote.drop_last() =~= Seq::<char>::empty());
    let open = Reading { word: Some(w), quoting: Quoting::Single, ..st };
    assert(read_text(st, quote) == open) by {
        reveal_with_fuel(read_text, 2);
    }
    if value.len() == 0 {
        assert(seq!['\'', '\''] =~= quote + quote);
        lemma_read_concat(st, quote, quote);
        assert(read_text(open, quote) == read_char(open, '\'')) by {
            reveal_with_fuel(read_text, 2);
        }
        assert(w + value =~= w);
    } else if forall|i: int| 0 <= i < value.len() ==> is_plain(#[trigger] value[i]) {
        lemma_read_plain(st, st.word, value);
    } else {
        lemma_read_concat(st, quote + requoted(value), quote);
        lemma_read_concat(st, quote, requoted(value));
        lemma_read_requoted(open, w, value);
        let mid = Reading { word: Some(w + value), ..open };
        assert(read_text(mid, quote) == read_char(mid, '\'')) by {
            reveal_with_fuel(read_text, 2);
        }
    }
}

/// The shell reads an escaped value as one word: the value itself.
pub proof fn escaped_value_is_one_word(value: Seq<char>)
    ensures
        shell_words(shell_word(value)) == Some(seq![value]),
{
    lemma_read_shell_word(at_start(), value);
    assert(Seq::<char>::empty() + value =~= value);
    assert(Seq::<Seq<char>>::empty().push(value) =~= seq![value]);
}

/// The request to run a command in a sandbox.
pub struct ExecSandboxRequest {
    pub sandbox_id: String,
    pub command: Vec<String>,
    pub workdir: String,
    pub environment: StringMap<String>,
    pub timeout_seconds: u32,
    pub stdin: Vec<u8>,
}

/// An assignment to the variable `key`, as one word of a command.
pub open spec fn assignment(key: Seq<char>, value: Seq<char>) -> Seq<char> {
    key + seq!['='] + shell_word(value)
}

/// The words of a command with its environment in front, in the order of the
/// variables' names, each as it is written.
pub open spec fn command_parts(
    environment: Map<Seq<char>, Seq<char>>,
    command: Seq<Seq<char>>,
) -> Seq<Seq<char>> {
    let keys = sorted_keys(environment.dom());
    Seq::new(keys.len(), |i: int| assignment(keys[i], environment[keys[i]])) + Seq::new(
        command.len(),
        |i: int| shell_word(command[i]),
    )
}

/// The text of a command with its environment in front.
pub open spec fn command_text(
    environment: Map<Seq<char>, Seq<char>>,
    command: Seq<Seq<char>>,
) -> Seq<char> {
    joined(command_parts(environment, command), seq![' '])
}

/// The text that is run in a sandbox: the command, in its working directory if
/// one is given.
pub open spec fn remote_command(
    environment: Map<Seq<char>, Seq<char>>,
    command: Seq<Seq<char>>,
    workdir: Seq<char>,
) -> Seq<char> {
    if workdir.len() == 0 {
        command_text(environment, command)
    } else {
        "cd "@ + shell_word(workdir) + " && "@ + command_text(environment, command)
    }
}

/// Appends one more part to a text of joined parts.
fn join_part(text: String, first: bool, part: &str, Ghost(parts): Ghost<Seq<Seq<char>>>) -> (r:
    String)
    requires
        text@ == joined(parts, seq![' ']),
        first == (parts.len() == 0),
    ensures
        r@ == joined(parts.push(part@), seq![' ']),
{
    assert(parts.push(part@).drop_last() =~= parts);
    assert(parts.push(part@).last() == part@);
    if first {
        part.to_owned()
    } else {
        let mut r = text;
        r.push(' ');
        r.append(part);
        assert(r@ =~= joined(parts, seq![' ']) + seq![' '] + part@);
        r
    }
}

/// The text that is run in a sandbox for `req`.
pub fn build_remote_exec_command(req: &ExecSandboxRequest) -> (r: String)
    ensures
        r@ == remote_command(
            req.environment.deep_view(),
            req.command.deep_view(),
            req.workdir@,
        ),
{
    let ghost env = req.environment.deep_view();
    let ghost keys = sorted_keys(env.dom());
    let ghost command = req.command.deep_view();
    let ghost all = command_parts(env, command);
    let n = req.environment.len();
    assert(req.environment@.dom() =~= env.dom());
    let mut text = String::new();
    assert(all.take(0) =~= Seq::<Seq<char>>::empty());
    for i in 0..n
        invariant
            env == req.environment.deep_view(),
            req.environment@.dom() == env.dom(),
            keys == sorted_keys(env.dom()),
            n == keys.len(),
            all == command_parts(env, command),
            command == req.command.deep_view(),
            text@ == joined(all.take(i as int), seq![' ']),
    {
        let key = req.environment.key_at(i);
        let value = req.environment.value_at(i);
        let escaped = shell_escape(value.as_str());
        let part = concat3(key.as_str(), "=", escaped.as_str());
        proof {
            reveal_strlit("=");
            assert("="@ =~= seq!['=']);
            assert(part@ == all[i as int]);
            assert(all.take(i + 1) =~= all.take(i as int).push(part@));
        }
        text = join_part(text, i == 0, part.as_str(), Ghost(all.take(i as int)));
    }
    for j in 0..req.command.len()
        invariant
            keys == sorted_keys(env.dom()),
            n == keys.len(),
            all == command_parts(env, command),
            command == req.command.deep_view(),
            text@ == joined(all.take(n + j), seq![' ']),
    {
        let part = shell_escape(req.command[j].as_str());
        proof {
            assert(command[j as int] == req.command@[j as int]@);
            assert(part@ == all[n + j]);
            assert(all.take(n + j + 1) =~= all.take(n + j).push(part@));
        }
        text = join_part(text, n == 0 && j == 0, part.as_str(), Ghost(all.take(n + j)));
    }
    assert(all.take(n + req.command@.len()) =~= all);
    if req.workdir.as_str().is_empty() {
        text
    } else {
        let dir = shell_escape(req.workdir.as_str());
        let mut r = concat3("cd ", dir.as_str(), " && ");
        r.append(text.as_str());
        r
    }
}

proof fn lemma_joined_push(parts: Seq<Seq<char>>, part: Seq<char>, sep: Seq<char>)
    requires
        parts.len() > 0,
    ensures
        joined(parts.push(part), sep) == joined(parts, sep) + sep + part,
{
    assert(parts.push(part).drop_last() =~= parts);
}

/// What the shell reads of the first `n` parts of a command.
proof fn lemma_read_parts(
    environment: Map<Seq<char>, Seq<char>>,
    command: Seq<Seq<char>>,
    n: int,
)
    requires
        environment.dom().finite(),
        forall|key: Seq<char>| #[trigger] environment.contains_key(key) ==> is_env_key(key),
        0 < n <= command_parts(environment, command).len(),
    ensures
        read_text(
            at_start(),
            joined(command_parts(environment, command).take(n), seq![' ']),
        ) == (Reading {
            words: intended_words(environment, command).take(n - 1),
            word: Some(intended_words(environment, command)[n - 1]),
            ..at_start()
        }),
    decreases n,
{
    let parts = command_parts(environment, command);
    let words = intended_words(environment, command);
    let keys = sorted_keys(environment.dom());
    lemma_sorted_keys_exist(environment.dom());
    assert(parts.len() == words.len());
    let part = parts[n - 1];
    let before = if n == 1 {
        at_start()
    } else {
        Reading { words: words.take(n - 1), ..at_start() }
    };
    assert(read_text(before, part) == (Reading { word: Some(words[n - 1]), ..before })) by {
        if n - 1 < keys.len() {
            let key = keys[n - 1];
            let value = environment[key];
            assert(keys.to_set().contains(key));
            assert(environment.contains_key(key));
            let head = key + seq!['='];
            assert forall|i: int| 0 <= i < head.len() implies is_plain(#[trigger] head[i])
                || head[i] == '=' by {
                if i < key.len() {
                    assert(head[i] == key[i]);
                }
            }
            lemma_read_plain(before, None, head);
            assert(Seq::<char>::empty() + head =~= head);
            lemma_read_concat(before, head, shell_word(value));
            lemma_read_shell_word(Reading { word: Some(head), ..before }, value);
        } else {
            let value = command[n - 1 - keys.len()];
            lemma_read_shell_word(before, value);
            assert(Seq::<char>::empty() + value =~= value);
        }
    }
    if n == 1 {
        assert(parts.take(1) =~= seq![part]);
        assert(words.take(0) =~= Seq::<Seq<char>>::empty());
    } else {
        lemma_read_parts(environment, command, n - 1);
        assert(parts.take(n) =~= parts.take(n - 1).push(part));
        lemma_joined_push(parts.take(n - 1), part, seq![' ']);
        let text = joined(parts.take(n - 1), seq![' ']);
        lemma_read_concat(at_start(), text + seq![' '], part);
        lemma_read_concat(at_start(), text, seq![' ']);
        let mid = read_text(at_start(), text);
        assert(seq![' '].drop_last() =~= Seq::<char>::empty());
        assert(read_text(mid, seq![' ']) == read_char(mid, ' ')) by {
            reveal_with_fuel(read_text, 2);
        }
        assert(words.take(n - 2).push(words[n - 2]) =~= words.take(n - 1));
    }
}

/// The words that a command is meant to be read as: `KEY=value` for each variable,
/// in the order of their names, and the command's own words, all of them verbatim.
pub open spec fn intended_words(
    environment: Map<Seq<char>, Seq<char>>,
    command: Seq<Seq<char>>,
) -> Seq<Seq<char>> {
    let keys = sorted_keys(environment.dom());
    Seq::new(keys.len(), |i: int| keys[i] + seq!['='] + environment[keys[i]]) + command
}

/// The shell reads the text of a command as the words it is meant to hold, whatever
/// characters the values and arguments are made of.
pub proof fn command_text_reads_back(
    environment: Map<Seq<char>, Seq<char>>,
    command: Seq<Seq<char>>,
)
    requires
        environment.dom().finite(),
        forall|key: Seq<char>| #[trigger] environment.contains_key(key) ==> is_env_key(key),
    ensures
        shell_words(command_text(environment, command)) == Some(
            intended_words(environment, command),
        ),
{
    let parts = command_parts(environment, command);
    let words = intended_words(environment, command);
    if parts.len() == 0 {
        assert(words =~= Seq::<Seq<char>>::empty());
    } else {
        lemma_read_parts(environment, command, parts.len() as int);
        assert(parts.take(parts.len() as int) =~= parts);
        assert(words.take(words.len() - 1).push(words[words.len() - 1]) =~= words);
    }
}

/// With a working directory the shell first reads a change to that very directory.
pub proof fn workdir_reads_back(workdir: Seq<char>)
    ensures
        shell_words("cd "@ + shell_word(workdir)) == Some(seq!["cd"@, workdir]),
{
    reveal_strlit("cd ");
    reveal_strlit("cd");
    let head = "cd"@;
    let sp = seq![' '];
    assert("cd "@ =~= head + sp);
    assert forall|i: int| 0 <= i < head.len() implies is_plain(#[trigger] head[i]) by {}
    lemma_read_concat(at_start(), head + sp, shell_word(workdir));
    lemma_read_concat(at_start(), head, sp);
    lemma_read_plain(at_start(), None, head);
    assert(Seq::<char>::empty() + head =~= head);
    let mid = read_text(at_start(), head);
    assert(sp.drop_last() =~= Seq::<char>::empty());
    assert(read_text(mid, sp) == read_char(mid, ' ')) by {
        reveal_with_fuel(read_text, 2);
    }
    lemma_read_shell_word(read_char(mid, ' '), workdir);
    assert(Seq::<char>::empty() + workdir =~= workdir);
    assert(Seq::<Seq<char>>::empty().push(head).push(workdir) =~= seq!["cd"@, workdir]);
}

} // verus!
