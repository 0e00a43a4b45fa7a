//! A command line as a feature name and its arguments.

use vstd::prelude::*;
use crate::text::{char_is_space, chars_of, is_space, push_char, views_of};

verus! {

/// Where the tokenizer stands between two characters.
pub struct Scan {
    /// The tokens that are complete.
    pub done: Seq<Seq<char>>,
    /// The token that is being read.
    pub word: Seq<char>,
    /// Whether a single quote is open.
    pub in_single: bool,
    /// Whether a double quote is open.
    pub in_double: bool,
}

/// The state before the first character.
pub open spec fn scan_start() -> Scan {
    Scan { done: Seq::empty(), word: Seq::empty(), in_single: false, in_double: false }
}

/// The tokens once the input has ended: a token that was begun counts.
pub open spec fn scan_end(st: Scan) -> Seq<Seq<char>> {
    if st.word.len() > 0 {
        st.done.push(st.word)
    } else {
        st.done
    }
}

/// The tokens of `s` read from the state `st`.
///
/// A single quote opens or closes outside double quotes, and a double quote
/// outside single quotes; neither belongs to the token. A backslash takes the
/// next character as it is, and is dropped where none follows. White space
/// outside quotes ends a token. Every other character belongs to the token.
pub open spec fn scan(s: Seq<char>, st: Scan) -> Seq<Seq<char>>
    decreases s.len(),
{
    if s.len() == 0 {
        scan_end(st)
    } else if s[0] == '\'' && !st.in_double {
        scan(s.skip(1), Scan { in_single: !st.in_single, ..st })
    } else if s[0] == '"' && !st.in_single {
        scan(s.skip(1), Scan { in_double: !st.in_double, ..st })
    } else if s[0] == '\\' {
        if s.len() >= 2 {
            scan(s.skip(2), Scan { word: st.word.push(s[1]), ..st })
        } else {
            scan(s.skip(1), st)
        }
    } else if is_space(s[0]) && !st.in_single && !st.in_double {
        if st.word.len() > 0 {
            scan(s.skip(1), Scan { done: st.done.push(st.word), word: Seq::empty(), ..st })
        } else {
            scan(s.skip(1), st)
        }
    } else {
        scan(s.skip(1), Scan { word: st.word.push(s[0]), ..st })
    }
}

/// The tokens of a command line.
pub open spec fn tokenize_spec(s: Seq<char>) -> Seq<Seq<char>> {
    scan(s, scan_start())
}

/// The feature name and the arguments of a command line: its first token,
/// and the tokens behind it. A line without tokens names the empty feature.
pub open spec fn parse_command_spec(s: Seq<char>) -> (Seq<char>, Seq<Seq<char>>) {
    let t = tokenize_spec(s);
    if t.len() == 0 {
        (Seq::empty(), Seq::empty())
    } else {
        (t[0], t.skip(1))
    }
}

/// Splits a command line into tokens.
pub fn tokenize(input: &str) -> (out: Vec<String>)
    ensures
        views_of(out@) == tokenize_spec(input@),
{
    let chars = chars_of(input);
    let mut out: Vec<String> = Vec::new();
    let mut buf = String::new();
    let mut in_single = false;
    let mut in_double = false;
    let mut i: usize = 0;
    assert(chars@.skip(0) =~= chars@);
    assert(views_of(out@) =~= Seq::<Seq<char>>::empty());
    while i < chars.len()
        invariant
            i <= chars.len(),
            chars@ == input@,
            scan(
                chars@.skip(i as int),
                Scan { done: views_of(out@), word: buf@, in_single, in_double },
            ) == tokenize_spec(input@),
        decreases chars.len() - i,
    {
        let c = chars[i];
        let ghost rest = chars@.skip(i as int);
        let ghost before = views_of(out@);
        assert(rest.skip(1) =~= chars@.skip(i as int + 1));
        if c == '\'' && !in_double {
            in_single = !in_single;
            i += 1;
        } else if c == '"' && !in_single {
            in_double = !in_double;
            i += 1;
        } else if c == '\\' {
            if i + 1 < chars.len() {
                assert(rest.skip(2) =~= chars@.skip(i as int + 2));
                push_char(&mut buf, chars[i + 1]);
                i += 2;
            } else {
                i += 1;
            }
        } else if char_is_space(c) && !in_single && !in_double {
            if !buf.as_str().is_empty() {
                out.push(buf);
                assert(views_of(out@) =~= before.push(buf@));
                buf = String::new();
            }
            i += 1;
        } else {
            push_char(&mut buf, c);
            i += 1;
        }
    }
    let ghost before = views_of(out@);
    if !buf.as_str().is_empty() {
        out.push(buf);
        assert(views_of(out@) =~= before.push(buf@));
    }
    out
}

/// Splits a command line into the feature name and its arguments.
pub fn parse_command(input: &str) -> (r: (String, Vec<String>))
    ensures
        r.0@ == parse_command_spec(input@).0,
        views_of(r.1@) == parse_command_spec(input@).1,
{
    let mut tokens = tokenize(input);
    if tokens.len() == 0 {
        assert(views_of(tokens@) =~= Seq::<Seq<char>>::empty());
        return (String::new(), tokens);
    }
    let ghost all = views_of(tokens@);
    let feature = tokens.remove(0);
    assert(views_of(tokens@) =~= all.skip(1));
    (feature, tokens)
}

} // verus!
