//! Script text: how a bearer token travels into the page.

use crate::text::chars_of;
use vstd::prelude::*;

verus! {

/// The `localStorage` key that the page reads its bearer from.
pub const BEARER_STORAGE_KEY: &'static str = "evoBearer";

/// How a character is written in a single-quoted string literal, after the
/// character `prev`. A slash is escaped where it would close a tag.
pub open spec fn escaped_char(prev: char, c: char) -> Seq<char> {
    if c == '\\' {
        seq!['\\', '\\']
    } else if c == '\'' {
        seq!['\\', '\'']
    } else if c == '\n' {
        seq!['\\', 'n']
    } else if c == '\r' {
        seq!['\\', 'r']
    } else if c == '\u{2028}' {
        seq!['\\', 'u', '2', '0', '2', '8']
    } else if c == '\u{2029}' {
        seq!['\\', 'u', '2', '0', '2', '9']
    } else if c == '/' && prev == '<' {
        seq!['\\', '/']
    } else {
        seq![c]
    }
}

/// How text is written in a single-quoted string literal, after the character
/// `prev`.
pub open spec fn escaped_after(prev: char, s: Seq<char>) -> Seq<char>
    decreases s.len(),
{
    if s.len() == 0 {
        Seq::empty()
    } else {
        escaped_char(prev, s[0]) + escaped_after(s[0], s.drop_first())
    }
}

/// How text is written in a single-quoted string literal.
pub open spec fn escaped(s: Seq<char>) -> Seq<char> {
    escaped_after('\0', s)
}

/// Escapes a bearer for a single-quoted string literal. `</` becomes `<\/`, so
/// that a token cannot close the script element around it.
pub fn js_string_literal(token: &str) -> (r: String)
    ensures
        r@ == escaped(token@),
{
    let cs = chars_of(token);
    let mut out = String::new();
    let mut prev = '\0';
    assert(token@.skip(0) == token@);
    for i in 0..cs.len()
        invariant
            cs@ == token@,
            out@ + escaped_after(prev, token@.skip(i as int)) == escaped(token@),
    {
        let ch = cs[i];
        let ghost before = out@;
        match ch {
            '\\' => {
                out.push('\\');
                out.push('\\');
            },
            '\'' => {
                out.push('\\');
                out.push('\'');
            },
            '\n' => {
                out.push('\\');
                out.push('n');
            },
            '\r' => {
                out.push('\\');
                out.push('r');
            },
            '\u{2028}' => {
                out.append("\\u2028");
            },
            '\u{2029}' => {
                out.append("\\u2029");
            },
            '/' if prev == '<' => {
                out.push('\\');
                out.push('/');
            },
            c => {
                out.push(c);
            },
        }
        proof {
            reveal_strlit("\\u2028");
            reveal_strlit("\\u2029");
            let rest = token@.skip(i as int);
            assert(rest[0] == ch);
            assert(rest.drop_first() == token@.skip(i + 1));
            assert(out@ =~= before + escaped_char(prev, ch));
            assert(before + (escaped_char(prev, ch) + escaped_after(ch, rest.drop_first()))
                =~= out@ + escaped_after(ch, rest.drop_first()));
        }
        prev = ch;
    }
    assert(token@.skip(token@.len() as int).len() == 0);
    assert(out@ + Seq::<char>::empty() == out@);
    out
}

/// The script that stores the bearer whose escaped form is `literal`.
pub open spec fn inject_script(literal: Seq<char>) -> Seq<char> {
    "(function(){try{localStorage.setItem('"@ + BEARER_STORAGE_KEY@ + "','"@ + literal
        + "');}catch(_e){}})();"@
}

/// The script that stores a bearer under [`BEARER_STORAGE_KEY`].
pub fn local_storage_inject_script(token: &str) -> (r: String)
    ensures
        r@ == inject_script(escaped(token@)),
{
    let mut out = "(function(){try{localStorage.setItem('".to_owned();
    out.append(BEARER_STORAGE_KEY);
    out.append("','");
    out.append(js_string_literal(token).as_str());
    out.append("');}catch(_e){}})();");
    out
}

/// The value of a hexadecimal digit.
pub open spec fn hex_value(c: char) -> Option<nat> {
    if '0' <= c && c <= '9' {
        Some((c as u32 - '0' as u32) as nat)
    } else if 'a' <= c && c <= 'f' {
        Some((c as u32 - 'a' as u32 + 10) as nat)
    } else if 'A' <= c && c <= 'F' {
        Some((c as u32 - 'A' as u32 + 10) as nat)
    } else {
        None
    }
}

/// The character of a four-digit escape, where `s` begins with four
/// hexadecimal digits that write one.
pub open spec fn hex_escape(s: Seq<char>) -> Option<char> {
    if s.len() < 4 {
        None
    } else {
        match (hex_value(s[0]), hex_value(s[1]), hex_value(s[2]), hex_value(s[3])) {
            (Some(a), Some(b), Some(c), Some(d)) => {
                let n = a * 0x1000 + b * 0x100 + c * 0x10 + d;
                if n < 0xd800 || n >= 0xe000 {
                    Some(n as char)
                } else {
                    None
                }
            },
            _ => None,
        }
    }
}

/// The text that a script engine reads between the quotes of a single-quoted
/// string literal. None where the literal would end early or is not well
/// formed.
pub open spec fn literal_value(s: Seq<char>) -> Option<Seq<char>>
    decreases s.len(),
{
    if s.len() == 0 {
        Some(Seq::empty())
    } else if s[0] == '\'' || s[0] == '\n' || s[0] == '\r' || s[0] == '\u{2028}' || s[0]
        == '\u{2029}' {
        None
    } else if s[0] != '\\' {
        with_first(s[0], literal_value(s.skip(1)))
    } else if s.len() < 2 {
        None
    } else if s[1] == '\\' || s[1] == '\'' || s[1] == '/' {
        with_first(s[1], literal_value(s.skip(2)))
    } else if s[1] == 'n' {
        with_first('\n', literal_value(s.skip(2)))
    } else if s[1] == 'r' {
        with_first('\r', literal_value(s.skip(2)))
    } else if s[1] == 'u' && hex_escape(s.skip(2)) is Some {
        with_first(hex_escape(s.skip(2))->0, literal_value(s.skip(6)))
    } else {
        None
    }
}

/// `c` in front of what was read, where anything was.
pub open spec fn with_first(c: char, rest: Option<Seq<char>>) -> Option<Seq<char>> {
    match rest {
        Some(t) => Some(seq![c] + t),
        None => None,
    }
}

/// A script engine reads the token back from its literal: no token ends the
/// literal early or changes on the way.
pub proof fn law_literal_reads_back(token: Seq<char>)
    ensures
        literal_value(escaped(token)) == Some(token),
{
    lemma_literal_reads_back('\0', token);
}

proof fn lemma_literal_reads_back(prev: char, s: Seq<char>)
    ensures
        literal_value(escaped_after(prev, s)) == Some(s),
    decreases s.len(),
{
    if s.len() == 0 {
    } else {
        let c = s[0];
        let tail = escaped_after(c, s.drop_first());
        lemma_literal_reads_back(c, s.drop_first());
        let head = escaped_char(prev, c);
        let whole = head + tail;
        assert(whole.skip(head.len() as int) =~= tail);
        assert(seq![c] + s.drop_first() =~= s);
        assert(whole[0] == head[0]);
        if head.len() >= 2 {
            assert(whole[1] == head[1]);
        }
        if head.len() == 6 {
            let digits = whole.skip(2);
            assert(digits[0] == '2' && digits[1] == '0' && digits[2] == '2' && digits[3]
                == head[5]);
            assert(hex_escape(digits) == Some(c));
        }
    }
}

/// Whether `s` holds the two characters `</` side by side.
pub open spec fn closes_tag(s: Seq<char>) -> bool {
    exists|i: int| 0 <= i < s.len() - 1 && #[trigger] s[i] == '<' && s[i + 1] == '/'
}

/// No escaped token holds `</` or a raw line terminator.
pub proof fn law_escaped_is_inert(token: Seq<char>)
    ensures
        !closes_tag(escaped(token)),
        !escaped(token).contains('\n'),
        !escaped(token).contains('\r'),
        !escaped(token).contains('\u{2028}'),
        !escaped(token).contains('\u{2029}'),
{
    lemma_escaped_is_inert('\0', token);
    assert forall|i: int| 0 <= i < escaped(token).len() - 1 && #[trigger] escaped(token)[i]
        == '<' implies escaped(token)[i + 1] != '/' by {
        assert(inert_at(escaped(token), i));
    }
    assert forall|i: int| 0 <= i < escaped(token).len() implies #[trigger] escaped(token)[i] != '\n'
        && escaped(token)[i] != '\r' && escaped(token)[i] != '\u{2028}' && escaped(token)[i]
        != '\u{2029}' by {
        assert(inert_at(escaped(token), i));
    }
}

spec fn inert_at(s: Seq<char>, i: int) -> bool {
    &&& s[i] != '\n' && s[i] != '\r' && s[i] != '\u{2028}' && s[i] != '\u{2029}'
    &&& i + 1 < s.len() && s[i] == '<' ==> s[i + 1] != '/'
}

proof fn lemma_escaped_is_inert(prev: char, s: Seq<char>)
    ensures
        forall|i: int|
            0 <= i < escaped_after(prev, s).len() ==> #[trigger] inert_at(
                escaped_after(prev, s),
                i,
            ),
        prev == '<' && s.len() > 0 ==> escaped_after(prev, s)[0] != '/',
    decreases s.len(),
{
    if s.len() > 0 {
        let c = s[0];
        let head = escaped_char(prev, c);
        let tail = escaped_after(c, s.drop_first());
        lemma_escaped_is_inert(c, s.drop_first());
        let whole = escaped_after(prev, s);
        assert forall|i: int| 0 <= i < whole.len() implies #[trigger] inert_at(whole, i) by {
            if i >= head.len() {
                assert(inert_at(tail, i - head.len()));
                assert(whole[i] == tail[i - head.len()]);
            } else {
                assert(whole[i] == head[i]);
                if i + 1 < whole.len() && whole[i] == '<' {
                    assert(head.len() == 1 && c == '<');
                    assert(whole[i + 1] == tail[0]);
                }
            }
        }
    }
}

/// Whether `s` holds no `c` from index `i` on.
spec fn lacks_from(s: Seq<char>, c: char, i: int) -> bool
    decreases s.len() - i,
{
    i >= s.len() || (s[i] != c && lacks_from(s, c, i + 1))
}

proof fn lemma_lacks(s: Seq<char>, c: char, i: int)
    requires
        lacks_from(s, c, i),
    ensures
        forall|j: int| i <= j < s.len() ==> #[trigger] s[j] != c,
    decreases s.len() - i,
{
    if i < s.len() {
        lemma_lacks(s, c, i + 1);
    }
}

/// The script that carries a token into the page never holds `</`, so that it
/// cannot end the script element that it is placed in.
pub proof fn law_inject_script_closes_no_tag(token: Seq<char>)
    ensures
        !closes_tag(inject_script(escaped(token))),
{
    let before = "(function(){try{localStorage.setItem('"@ + BEARER_STORAGE_KEY@ + "','"@;
    let after = "');}catch(_e){}})();"@;
    reveal_strlit("(function(){try{localStorage.setItem('");
    reveal_strlit("evoBearer");
    reveal_strlit("','");
    reveal_strlit("');}catch(_e){}})();");
    assert(lacks_from(before, '<', 0)) by {
        reveal_with_fuel(lacks_from, 60);
    }
    assert(lacks_from(after, '<', 0)) by {
        reveal_with_fuel(lacks_from, 30);
    }
    lemma_lacks(before, '<', 0);
    lemma_lacks(after, '<', 0);
    law_escaped_is_inert(token);
    let literal = escaped(token);
    let whole = inject_script(literal);
    assert(whole =~= before + literal + after);
    assert forall|i: int| 0 <= i < whole.len() - 1 && #[trigger] whole[i] == '<' implies whole[i
        + 1] != '/' by {
        let k = i - before.len();
        if k < 0 {
            assert(whole[i] == before[i]);
        } else if k < literal.len() {
            assert(whole[i] == literal[k]);
            if k + 1 < literal.len() {
                assert(whole[i + 1] == literal[k + 1]);
            } else {
                assert(whole[i + 1] == after[0]);
            }
        } else {
            assert(whole[i] == after[k - literal.len()]);
        }
    }
}

/// Text without quotes, backslashes, slashes and line terminators is its own
/// escaped form.
pub proof fn law_plain_text_is_not_escaped(s: Seq<char>)
    requires
        forall|i: int|
            0 <= i < s.len() ==> {
                &&& #[trigger] s[i] != '\\' && s[i] != '\'' && s[i] != '/'
                &&& s[i] != '\n' && s[i] != '\r' && s[i] != '\u{2028}' && s[i] != '\u{2029}'
            },
    ensures
        escaped(s) == s,
{
    lemma_plain_text_is_not_escaped('\0', s);
}

proof fn lemma_plain_text_is_not_escaped(prev: char, s: Seq<char>)
    requires
        forall|i: int|
            0 <= i < s.len() ==> {
                &&& #[trigger] s[i] != '\\' && s[i] != '\'' && s[i] != '/'
                &&& s[i] != '\n' && s[i] != '\r' && s[i] != '\u{2028}' && s[i] != '\u{2029}'
            },
    ensures
        escaped_after(prev, s) == s,
    decreases s.len(),
{
    if s.len() > 0 {
        let rest = s.drop_first();
        assert forall|i: int| 0 <= i < rest.len() implies {
            &&& #[trigger] rest[i] != '\\' && rest[i] != '\'' && rest[i] != '/'
            &&& rest[i] != '\n' && rest[i] != '\r' && rest[i] != '\u{2028}' && rest[i]
                != '\u{2029}'
        } by {
            assert(rest[i] == s[i + 1]);
        }
        lemma_plain_text_is_not_escaped(s[0], rest);
        assert(s[0] != '\\');
        assert(seq![s[0]] + rest =~= s);
    }
}

/// Text is escaped part by part: what stands before a character only matters
/// for a slash, by its last character.
pub proof fn law_escaping_is_done_by_parts(prev: char, a: Seq<char>, b: Seq<char>)
    ensures
        escaped_after(prev, a + b) == escaped_after(prev, a) + escaped_after(
            if a.len() > 0 {
                a.last()
            } else {
                prev
            },
            b,
        ),
    decreases a.len(),
{
    if a.len() == 0 {
        assert(a + b =~= b);
        assert(escaped_after(prev, a) + escaped_after(prev, b) =~= escaped_after(prev, b));
    } else {
        let rest = a.drop_first();
        assert((a + b).drop_first() =~= rest + b);
        law_escaping_is_done_by_parts(a[0], rest, b);
        let last = if rest.len() > 0 {
            rest.last()
        } else {
            a[0]
        };
        assert(last == a.last());
        assert(escaped_char(prev, a[0]) + (escaped_after(a[0], rest) + escaped_after(last, b))
            =~= escaped_char(prev, a[0]) + escaped_after(a[0], rest) + escaped_after(last, b));
    }
}

/// Whether a script stores a bearer under the page's key: it sets the key to a
/// literal that a script engine reads as that bearer.
pub open spec fn stores_bearer(script: Seq<char>, bearer: Seq<char>) -> bool {
    exists|literal: Seq<char>|
        script == "(function(){try{localStorage.setItem('evoBearer','"@ + literal
            + "');}catch(_e){}})();"@ && #[trigger] literal_value(literal) == Some(bearer)
}

/// The script of a token stores that token as the bearer, and no other.
pub proof fn law_script_stores_the_token(token: Seq<char>)
    ensures
        stores_bearer(inject_script(escaped(token)), token),
{
    reveal_strlit("(function(){try{localStorage.setItem('");
    reveal_strlit("evoBearer");
    reveal_strlit("','");
    reveal_strlit("(function(){try{localStorage.setItem('evoBearer','");
    let before = "(function(){try{localStorage.setItem('"@ + BEARER_STORAGE_KEY@ + "','"@;
    assert(before =~= "(function(){try{localStorage.setItem('evoBearer','"@);
    law_literal_reads_back(token);
    let literal = escaped(token);
    assert(inject_script(literal) =~= "(function(){try{localStorage.setItem('evoBearer','"@ + literal
        + "');}catch(_e){}})();"@);
    assert(literal_value(literal) == Some(token));
}

/// A script stores one bearer only.
pub proof fn law_script_stores_one_bearer(script: Seq<char>, a: Seq<char>, b: Seq<char>)
    requires
        stores_bearer(script, a),
        stores_bearer(script, b),
    ensures
        a == b,
{
    let head = "(function(){try{localStorage.setItem('evoBearer','"@;
    let tail = "');}catch(_e){}})();"@;
    let x = choose|x: Seq<char>|
        script == head + x + tail && #[trigger] literal_value(x) == Some(a);
    let y = choose|y: Seq<char>|
        script == head + y + tail && #[trigger] literal_value(y) == Some(b);
    let n = script.len() - tail.len();
    assert(x =~= script.subrange(head.len() as int, n as int));
    assert(y =~= script.subrange(head.len() as int, n as int));
}

/// How each character is written: a backslash before a backslash or a quote, a
/// letter for a line end, four digits for the two line terminators beyond
/// ASCII, a backslash before a slash behind `<`, and itself otherwise.
pub proof fn law_each_character_has_its_escape(prev: char, c: char)
    ensures
        escaped_after(prev, seq![c]) == if c == '\\' || c == '\'' || (c == '/' && prev == '<') {
            seq!['\\', c]
        } else if c == '\n' {
            seq!['\\', 'n']
        } else if c == '\r' {
            seq!['\\', 'r']
        } else if c == '\u{2028}' {
            seq!['\\', 'u', '2', '0', '2', '8']
        } else if c == '\u{2029}' {
            seq!['\\', 'u', '2', '0', '2', '9']
        } else {
            seq![c]
        },
{
    let rest = seq![c].drop_first();
    assert(rest.len() == 0);
    assert(escaped_after(c, rest) == Seq::<char>::empty());
    assert(escaped_after(prev, seq![c]) =~= escaped_char(prev, c));
}

} // verus!
