//! Parsing and matching rules common to every platform: socket addresses,
//! script paths inside command lines, and process-name comparison.
use vstd::prelude::*;

use crate::scanner::{BindingView, PortBinding};
use crate::text::{
    ascii_lower, ascii_lower_vec, chars_of, contains, contains_vec, ends_with, ends_with_vec,
    eq_ignore_case, eq_ignore_case_vec, eq_vec, is_whitespace, is_ws, occurs_at, parse_u16,
    parse_uint, rfind, rfind_upto, rfind_vec, seqs, slice, starts_with, starts_with_vec, string_of,
    trim, trim_vec, utf8_len, utf8_len_exec,
};

verus! {

/// A last occurrence found lies at or before `i` and is one.
pub proof fn lemma_rfind_upto(s: Seq<char>, p: Seq<char>, i: int)
    ensures
        rfind_upto(s, p, i) matches Some(k) ==> 0 <= k <= i && occurs_at(s, p, k),
    decreases i + 1,
{
    if i >= 0 && !occurs_at(s, p, i) {
        lemma_rfind_upto(s, p, i - 1);
    }
}

// ---------------------------------------------------------------------------
// Socket addresses
// ---------------------------------------------------------------------------

/// The binding that `address:port` (or `[ipv6]:port`) denotes, or `None`
/// where the text is no listening address: empty, a connected UDP socket
/// (`local->remote`), a missing or empty address, or a port that is no `u16`.
pub open spec fn address_port_spec(value: Seq<char>, protocol: Seq<char>) -> Option<
    BindingView,
> {
    let v = trim(value);
    if v.len() == 0 {
        None
    } else if eq_ignore_case(protocol, "UDP"@) && contains(v, "->"@) {
        None
    } else if v[0] == '[' {
        match rfind(v, "]:"@) {
            Some(end) => match parse_uint(v.skip(end + 2), 65535) {
                Some(port) => Some(
                    BindingView { address: v.take(end + 1), port: port as u16, protocol: protocol },
                ),
                None => None,
            },
            None => None,
        }
    } else {
        match rfind(v, ":"@) {
            Some(i) => if i == 0 {
                None
            } else {
                match parse_uint(v.skip(i + 1), 65535) {
                    Some(port) => Some(
                        BindingView { address: v.take(i), port: port as u16, protocol: protocol },
                    ),
                    None => None,
                }
            },
            None => None,
        }
    }
}

/// Parses a local socket address as `lsof`, `ss` and PowerShell print it.
pub fn parse_address_port(value: &str, protocol: &str) -> (r: Option<PortBinding>)
    ensures
        match r {
            Some(b) => address_port_spec(value@, protocol@) == Some(b@),
            None => address_port_spec(value@, protocol@) is None,
        },
{
    let raw = chars_of(value);
    let v = trim_vec(&raw);
    if v.len() == 0 {
        return None;
    }
    let proto = chars_of(protocol);
    let udp = chars_of("UDP");
    let arrow = chars_of("->");
    if eq_ignore_case_vec(&proto, &udp) && contains_vec(&v, &arrow) {
        return None;
    }
    if v[0] == '[' {
        let close = chars_of("]:");
        proof {
            reveal_strlit("]:");
        }
        match rfind_vec(&v, &close) {
            Some(end) => {
                proof {
                    lemma_rfind_upto(v@, close@, v@.len() - close@.len());
                }
                let port_text = slice(&v, end + 2, v.len());
                match parse_u16(&port_text) {
                    Some(port) => {
                        let address = string_of(&slice(&v, 0, end + 1));
                        Some(PortBinding { address, port, protocol: protocol.to_owned() })
                    },
                    None => None,
                }
            },
            None => None,
        }
    } else {
        let colon = chars_of(":");
        proof {
            reveal_strlit(":");
        }
        match rfind_vec(&v, &colon) {
            Some(i) => {
                proof {
                    lemma_rfind_upto(v@, colon@, v@.len() - colon@.len());
                }
                if i == 0 {
                    return None;
                }
                let port_text = slice(&v, i + 1, v.len());
                match parse_u16(&port_text) {
                    Some(port) => {
                        let address = string_of(&slice(&v, 0, i));
                        Some(PortBinding { address, port, protocol: protocol.to_owned() })
                    },
                    None => None,
                }
            },
            None => None,
        }
    }
}

// ---------------------------------------------------------------------------
// Command-line tokens
// ---------------------------------------------------------------------------

/// Where the tokenizer stands after some prefix of a command line.
pub struct TokenizerState {
    pub tokens: Seq<Seq<char>>,
    pub current: Seq<char>,
    pub quote: Option<char>,
}

/// One character of input: inside quotes everything but the closing quote
/// is kept; outside, a quote opens, whitespace ends the current token, and
/// any other character is kept.
pub open spec fn tokenizer_step(st: TokenizerState, ch: char) -> TokenizerState {
    match st.quote {
        Some(q) => if ch == q {
            TokenizerState { tokens: st.tokens, current: st.current, quote: None }
        } else {
            TokenizerState { tokens: st.tokens, current: st.current.push(ch), quote: st.quote }
        },
        None => if ch == '"' || ch == '\'' {
            TokenizerState { tokens: st.tokens, current: st.current, quote: Some(ch) }
        } else if is_ws(ch) {
            if st.current.len() > 0 {
                TokenizerState { tokens: st.tokens.push(st.current), current: seq![], quote: None }
            } else {
                st
            }
        } else {
            TokenizerState { tokens: st.tokens, current: st.current.push(ch), quote: None }
        },
    }
}

/// The tokenizer's state after the given characters.
pub open spec fn tokenizer_run(s: Seq<char>) -> TokenizerState
    decreases s.len(),
{
    if s.len() == 0 {
        TokenizerState { tokens: seq![], current: seq![], quote: None }
    } else {
        tokenizer_step(tokenizer_run(s.drop_last()), s.last())
    }
}

/// The tokens of a command line: whitespace separates them, except inside
/// single or double quotes, which are dropped; empty tokens are never kept.
pub open spec fn tokens_spec(s: Seq<char>) -> Seq<Seq<char>> {
    let st = tokenizer_run(s);
    if st.current.len() > 0 {
        st.tokens.push(st.current)
    } else {
        st.tokens
    }
}

/// Splits a command line into tokens, honoring single and double quotes so
/// that a quoted path with spaces stays one token.
pub fn tokenize(command_line: &str) -> (r: Vec<String>)
    ensures
        r@.map_values(|t: String| t@) == tokens_spec(command_line@),
{
    let chars = chars_of(command_line);
    let mut tokens: Vec<String> = Vec::new();
    let mut current: Vec<char> = Vec::new();
    let mut quote: Option<char> = None;
    let mut i: usize = 0;
    assert(chars@.take(0) =~= Seq::<char>::empty());
    assert(tokens@.map_values(|t: String| t@) =~= Seq::<Seq<char>>::empty());
    while i < chars.len()
        invariant
            i <= chars.len(),
            chars@ == command_line@,
            tokenizer_run(chars@.take(i as int)) == (TokenizerState {
                tokens: tokens@.map_values(|t: String| t@),
                current: current@,
                quote: quote,
            }),
        decreases chars.len() - i,
    {
        let ch = chars[i];
        assert(chars@.take(i + 1).drop_last() == chars@.take(i as int));
        let ghost before = tokens@;
        match quote {
            Some(q) => {
                if ch == q {
                    quote = None;
                } else {
                    current.push(ch);
                }
            },
            None => {
                if ch == '"' || ch == '\'' {
                    quote = Some(ch);
                } else if is_whitespace(ch) {
                    if current.len() > 0 {
                        tokens.push(string_of(&current));
                        assert(tokens@.map_values(|t: String| t@) == before.map_values(
                            |t: String| t@,
                        ).push(current@));
                        current = Vec::new();
                    }
                } else {
                    current.push(ch);
                }
            },
        }
        i += 1;
    }
    assert(chars@.take(chars.len() as int) == chars@);
    if current.len() > 0 {
        let ghost before = tokens@;
        tokens.push(string_of(&current));
        assert(tokens@.map_values(|t: String| t@) == before.map_values(|t: String| t@).push(
            current@,
        ));
    }
    tokens
}

// ---------------------------------------------------------------------------
// Script paths
// ---------------------------------------------------------------------------

/// What `str::to_lowercase` returns (full Unicode lowercase mapping).
pub uninterp spec fn unicode_lowercase(s: Seq<char>) -> Seq<char>;

/// `str::to_lowercase`: the Unicode lowercase form of the string. Its value
/// is named, not stated: the Unicode case tables are not written out here.
#[verifier::external_body]
fn to_lowercase(s: &str) -> (r: String)
    ensures
        r@ == unicode_lowercase(s@),
{
    s.to_lowercase()
}

/// The interpreter names a process name is matched against.
pub open spec fn interpreters() -> Seq<Seq<char>> {
    seq![
        "python"@,
        "python3"@,
        "node"@,
        "nodejs"@,
        "bun"@,
        "ruby"@,
        "perl"@,
        "php"@,
        "java"@,
    ]
}

/// The (lowercased) process name contains an interpreter name.
pub open spec fn is_interpreter(name_lower: Seq<char>) -> bool {
    exists|k: int| 0 <= k < interpreters().len() && contains(name_lower, #[trigger] interpreters()[k])
}

/// A token that names a script: no option, holds a path separator, and is
/// not a device under `/dev/`.
pub open spec fn is_script_token(t: Seq<char>) -> bool {
    !starts_with(t, "-"@) && (contains(t, "/"@) || contains(t, "\\"@)) && !starts_with(
        t,
        "/dev/"@,
    )
}

/// The first script token at index `k` or later.
pub open spec fn first_script_token(tokens: Seq<Seq<char>>, k: int) -> Option<Seq<char>>
    decreases tokens.len() - k,
{
    if k < 0 || k >= tokens.len() {
        None
    } else if is_script_token(tokens[k]) {
        Some(tokens[k])
    } else {
        first_script_token(tokens, k + 1)
    }
}

/// The script an interpreter runs, given the process name already
/// lowercased: for a name that contains an interpreter name, the first
/// script token after the program token; for any other name, or an empty
/// command line, none.
pub open spec fn script_path_lowered(command_line: Seq<char>, name_lower: Seq<char>) -> Option<
    Seq<char>,
> {
    if command_line.len() == 0 {
        None
    } else if !is_interpreter(name_lower) {
        None
    } else {
        first_script_token(tokens_spec(command_line), 1)
    }
}

/// The script an interpreter runs (see `script_path_lowered`), the process
/// name lowercased by `str::to_lowercase`.
pub open spec fn script_path_spec(command_line: Seq<char>, process_name: Seq<char>) -> Option<
    Seq<char>,
> {
    script_path_lowered(command_line, unicode_lowercase(process_name))
}

fn is_script_token_exec(t: &Vec<char>) -> (b: bool)
    ensures
        b == is_script_token(t@),
{
    let dash = chars_of("-");
    let slash = chars_of("/");
    let backslash = chars_of("\\");
    let dev = chars_of("/dev/");
    !starts_with_vec(t, &dash) && (contains_vec(t, &slash) || contains_vec(t, &backslash))
        && !starts_with_vec(t, &dev)
}

/// Finds the script path in an interpreter's command line.
pub fn extract_script_path(command_line: &str, process_name: &str) -> (r: Option<String>)
    ensures
        match r {
            Some(p) => script_path_spec(command_line@, process_name@) == Some(p@),
            None => script_path_spec(command_line@, process_name@) is None,
        },
{
    if command_line.is_empty() {
        return None;
    }
    let lower = to_lowercase(process_name);
    script_path_from_lowered(command_line, lower.as_str())
}

/// Finds the script path in an interpreter's command line, given the
/// process name already lowercased.
pub fn script_path_from_lowered(command_line: &str, name_lower: &str) -> (r: Option<String>)
    ensures
        match r {
            Some(p) => script_path_lowered(command_line@, name_lower@) == Some(p@),
            None => script_path_lowered(command_line@, name_lower@) is None,
        },
{
    if command_line.is_empty() {
        return None;
    }
    let lv = chars_of(name_lower);
    let names: Vec<Vec<char>> = vec![
        chars_of("python"),
        chars_of("python3"),
        chars_of("node"),
        chars_of("nodejs"),
        chars_of("bun"),
        chars_of("ruby"),
        chars_of("perl"),
        chars_of("php"),
        chars_of("java"),
    ];
    assert(seqs(names@) == interpreters());
    let mut is_interp = false;
    let mut k: usize = 0;
    while k < names.len()
        invariant
            k <= names.len(),
            seqs(names@) == interpreters(),
            is_interp == exists|j: int| 0 <= j < k && contains(lv@, #[trigger] interpreters()[j]),
        decreases names.len() - k,
    {
        assert(names@[k as int]@ == interpreters()[k as int]);
        if contains_vec(&lv, &names[k]) {
            is_interp = true;
        }
        k += 1;
    }
    assert(is_interp == is_interpreter(lv@));
    if !is_interp {
        return None;
    }
    let tokens = tokenize(command_line);
    let ghost toks = tokens_spec(command_line@);
    let mut i: usize = 1;
    while i < tokens.len()
        invariant
            1 <= i,
            toks == tokens_spec(command_line@),
            command_line@.len() > 0,
            is_interpreter(name_lower@),
            tokens@.map_values(|t: String| t@) == toks,
            first_script_token(toks, 1) == first_script_token(toks, i as int),
        decreases tokens.len() - i,
    {
        let t = chars_of(tokens[i].as_str());
        assert(t@ == toks[i as int]);
        if is_script_token_exec(&t) {
            let p = tokens[i].clone();
            assert(first_script_token(toks, i as int) == Some(toks[i as int]));
            assert(p@ == toks[i as int]);
            return Some(p);
        }
        i += 1;
    }
    None
}

// ---------------------------------------------------------------------------
// Process names
// ---------------------------------------------------------------------------

/// A path separator: `/` or `\\`.
pub open spec fn is_sep(c: char) -> bool {
    c == '/' || c == '\\'
}

/// The text after the last `/` or `\` (the whole text when there is none).
pub open spec fn basename(s: Seq<char>) -> Seq<char>
    decreases s.len(),
{
    if s.len() == 0 {
        s
    } else if is_sep(s.last()) {
        seq![]
    } else {
        basename(s.drop_last()).push(s.last())
    }
}

/// `s` without a final `.exe`.
pub open spec fn strip_exe(s: Seq<char>) -> Seq<char> {
    if ends_with(s, ".exe"@) {
        s.take(s.len() - 4)
    } else {
        s
    }
}

/// A process name as compared: trimmed, reduced to its last path segment,
/// ASCII-lowercased, without a `.exe` suffix.
pub open spec fn normalize_name(name: Seq<char>) -> Seq<char> {
    strip_exe(ascii_lower(basename(trim(name))))
}

/// Two process names denote the same program: equal once normalized, or one
/// a kernel-truncated form of the other (15 or 16 UTF-8 bytes long, a prefix
/// of the longer one). An empty name matches nothing.
pub open spec fn names_match_spec(current: Seq<char>, expected: Seq<char>) -> bool {
    let c = normalize_name(current);
    let e = normalize_name(expected);
    if c.len() == 0 || e.len() == 0 {
        false
    } else if c == e {
        true
    } else {
        let short = if utf8_len(c) < utf8_len(e) {
            c
        } else {
            e
        };
        let long = if utf8_len(c) < utf8_len(e) {
            e
        } else {
            c
        };
        15 <= utf8_len(short) <= 16 && starts_with(long, short)
    }
}

fn basename_vec(v: &Vec<char>) -> (r: Vec<char>)
    ensures
        r@ == basename(v@),
{
    let mut j: usize = v.len();
    assert(v@.take(v.len() as int) == v@);
    assert(v@.subrange(v.len() as int, v.len() as int) =~= Seq::<char>::empty());
    while j > 0 && !(v[j - 1] == '/' || v[j - 1] == '\\')
        invariant
            j <= v.len(),
            basename(v@) == basename(v@.take(j as int)) + v@.subrange(j as int, v.len() as int),
        decreases j,
    {
        assert(v@.take(j as int).drop_last() == v@.take(j - 1));
        assert(basename(v@.take(j as int)) == basename(v@.take(j - 1)).push(v@[j - 1]));
        assert(v@.subrange(j - 1, v.len() as int) == seq![v@[j - 1]] + v@.subrange(
            j as int,
            v.len() as int,
        ));
        j -= 1;
    }
    if j > 0 {
        assert(basename(v@.take(j as int)) == Seq::<char>::empty());
    } else {
        assert(v@.take(0) =~= Seq::<char>::empty());
    }
    slice(v, j, v.len())
}

fn normalize_name_vec(name: &str) -> (r: Vec<char>)
    ensures
        r@ == normalize_name(name@),
{
    let t = trim_vec(&chars_of(name));
    let b = basename_vec(&t);
    let l = ascii_lower_vec(&b);
    let exe = chars_of(".exe");
    proof {
        reveal_strlit(".exe");
    }
    if ends_with_vec(&l, &exe) {
        slice(&l, 0, l.len() - 4)
    } else {
        l
    }
}

/// Compares a live process name with the one seen in the last scan,
/// tolerating kernel truncation, a `.exe` suffix, letter case and a full
/// path against a bare name.
pub fn process_names_match(current: &str, expected: &str) -> (b: bool)
    ensures
        b == names_match_spec(current@, expected@),
{
    let c = normalize_name_vec(current);
    let e = normalize_name_vec(expected);
    if c.len() == 0 || e.len() == 0 {
        return false;
    }
    if eq_vec(&c, &e) {
        return true;
    }
    let lc = utf8_len_exec(&c);
    let le = utf8_len_exec(&e);
    let (short, long, ls) = if lc < le {
        (&c, &e, lc)
    } else {
        (&e, &c, le)
    };
    15 <= ls && ls <= 16 && starts_with_vec(long, short)
}

/// Matching process names is symmetric.
pub proof fn law_names_match_symmetric(a: Seq<char>, b: Seq<char>)
    ensures
        names_match_spec(a, b) == names_match_spec(b, a),
{
    let c = normalize_name(a);
    let e = normalize_name(b);
    if c.len() > 0 && e.len() > 0 && c != e && utf8_len(c) == utf8_len(e) {
        // equal byte lengths: a prefix of the same length would be equal
        if starts_with(c, e) {
            lemma_same_utf8_prefix(c, e);
        }
        if starts_with(e, c) {
            lemma_same_utf8_prefix(e, c);
        }
    }
}

/// A prefix with the same UTF-8 length is the whole sequence.
proof fn lemma_same_utf8_prefix(long: Seq<char>, short: Seq<char>)
    requires
        starts_with(long, short),
        utf8_len(long) == utf8_len(short),
    ensures
        long == short,
{
    let rest = long.skip(short.len() as int);
    assert(long == short + rest);
    lemma_utf8_len_add(short, rest);
    if rest.len() > 0 {
        lemma_utf8_len_pos(rest);
    }
    assert(rest.len() == 0);
    assert(long =~= short);
}

/// UTF-8 lengths add up over concatenation.
pub proof fn lemma_utf8_len_add(a: Seq<char>, b: Seq<char>)
    ensures
        utf8_len(a + b) == utf8_len(a) + utf8_len(b),
    decreases b.len(),
{
    if b.len() > 0 {
        lemma_utf8_len_add(a, b.drop_last());
        assert((a + b).drop_last() == a + b.drop_last());
    } else {
        assert(a + b == a);
    }
}

proof fn lemma_utf8_len_pos(s: Seq<char>)
    requires
        s.len() > 0,
    ensures
        utf8_len(s) > 0,
{
}

/// A name matches itself exactly when something is left of it once
/// normalized.
pub proof fn law_names_match_reflexive(a: Seq<char>)
    ensures
        names_match_spec(a, a) == (normalize_name(a).len() > 0),
{
}

} // verus!
