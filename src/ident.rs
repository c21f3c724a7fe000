use vstd::prelude::*;

verus! {

/// Characters kept in an identifier: ASCII letters and digits.
pub open spec fn is_word_char(c: char) -> bool {
    ('a' <= c && c <= 'z') || ('A' <= c && c <= 'Z') || ('0' <= c && c <= '9')
}

/// ASCII lowercase of a character; other characters are unchanged.
pub open spec fn lower(c: char) -> char {
    if 'A' <= c && c <= 'Z' {
        ((c as u8) + 32) as char
    } else {
        c
    }
}

/// Left-to-right scan of heading text: word characters are kept in lowercase,
/// every run of other characters between two words becomes one hyphen.
/// The flag records a separator seen since the last kept character.
pub open spec fn scan(s: Seq<char>) -> (Seq<char>, bool)
    decreases s.len(),
{
    if s.len() == 0 {
        (Seq::empty(), false)
    } else {
        let prev = scan(s.drop_last());
        let c = s.last();
        if is_word_char(c) {
            if prev.1 {
                (prev.0.push('-').push(lower(c)), false)
            } else {
                (prev.0.push(lower(c)), false)
            }
        } else {
            (prev.0, prev.0.len() > 0)
        }
    }
}

/// The identifier used when the text holds no word character at all.
pub open spec fn fallback_id() -> Seq<char> {
    seq!['h', 'e', 'a', 'd', 'i', 'n', 'g']
}

/// The canonical identifier of a heading text.
pub open spec fn canonical(s: Seq<char>) -> Seq<char> {
    if scan(s).0.len() == 0 {
        fallback_id()
    } else {
        scan(s).0
    }
}

/// Lowercase ASCII letters, digits and single inner hyphens, not empty.
pub open spec fn is_canonical(t: Seq<char>) -> bool {
    &&& t.len() > 0
    &&& forall|i: int| 0 <= i < t.len() ==> id_char(#[trigger] t[i])
    &&& t[0] != '-'
    &&& t.last() != '-'
    &&& forall|i: int| 0 <= i < t.len() - 1 ==> !(#[trigger] t[i] == '-' && t[i + 1] == '-')
}

pub open spec fn id_char(c: char) -> bool {
    (is_word_char(c) && lower(c) == c) || c == '-'
}

proof fn lemma_lower(c: char)
    requires
        is_word_char(c),
    ensures
        is_word_char(lower(c)),
        lower(lower(c)) == lower(c),
        lower(c) != '-',
{
}

proof fn lemma_scan_shape(s: Seq<char>)
    ensures
        scan(s).1 ==> scan(s).0.len() > 0,
        forall|i: int| 0 <= i < scan(s).0.len() ==> id_char(#[trigger] scan(s).0[i]),
        scan(s).0.len() > 0 ==> scan(s).0[0] != '-' && scan(s).0.last() != '-',
        forall|i: int|
            0 <= i < scan(s).0.len() - 1 ==> !(#[trigger] scan(s).0[i] == '-' && scan(s).0[i
                + 1] == '-'),
    decreases s.len(),
{
    if s.len() > 0 {
        lemma_scan_shape(s.drop_last());
        let c = s.last();
        if is_word_char(c) {
            lemma_lower(c);
        }
        let prev = scan(s.drop_last()).0;
        let cur = scan(s).0;
        assert forall|i: int| 0 <= i < cur.len() implies id_char(#[trigger] cur[i]) by {
            if i < prev.len() {
                assert(cur[i] == prev[i]);
            }
        }
        assert forall|i: int| 0 <= i < cur.len() - 1 implies !(#[trigger] cur[i] == '-' && cur[i
            + 1] == '-') by {
            if i + 1 < prev.len() {
                assert(cur[i] == prev[i] && cur[i + 1] == prev[i + 1]);
            }
        }
    }
}

/// Scanning a prefix of a canonical identifier gives the prefix back,
/// less a trailing hyphen, which is remembered in the flag.
proof fn lemma_scan_prefix(t: Seq<char>, n: int)
    requires
        is_canonical(t),
        0 <= n <= t.len(),
    ensures
        scan(t.take(n)) == (if n > 0 && t[n - 1] == '-' {
            (t.take(n - 1), true)
        } else {
            (t.take(n), false)
        }),
    decreases n,
{
    if n > 0 {
        lemma_scan_prefix(t, n - 1);
        assert(t.take(n).drop_last() =~= t.take(n - 1));
        let c = t[n - 1];
        assert(id_char(t[n - 1]));
        if c == '-' {
            assert(n - 1 > 0);
            assert(!(t[n - 2] == '-' && t[n - 1] == '-'));
        } else {
            if n > 1 && t[n - 2] == '-' {
                assert(t.take(n - 2).push('-').push(c) =~= t.take(n));
            } else {
                assert(t.take(n - 1).push(c) =~= t.take(n));
            }
        }
    }
}

/// Canonicalizing is idempotent: a canonical identifier is returned unchanged.
pub proof fn lemma_canonical_idempotent(s: Seq<char>)
    ensures
        is_canonical(canonical(s)),
        canonical(canonical(s)) == canonical(s),
{
    lemma_scan_shape(s);
    let t = canonical(s);
    if scan(s).0.len() == 0 {
        assert(t[0] == 'h' && t[1] == 'e' && t[2] == 'a' && t[3] == 'd' && t[4] == 'i' && t[5]
            == 'n' && t[6] == 'g');
    }
    assert(is_canonical(t));
    lemma_scan_prefix(t, t.len() as int);
    assert(t.take(t.len() as int) =~= t);
}

/// Relies on String::push: appends the character at the end.
#[verifier::external_body]
pub(crate) fn push_char(s: &mut String, c: char)
    ensures
        final(s)@ == old(s)@.push(c),
{
    s.push(c)
}

fn lower_char(c: char) -> (r: char)
    ensures
        r == lower(c),
{
    if 'A' <= c && c <= 'Z' {
        ((c as u8) + 32) as char
    } else {
        c
    }
}

fn is_word_char_exec(c: char) -> (r: bool)
    ensures
        r == is_word_char(c),
{
    ('a' <= c && c <= 'z') || ('A' <= c && c <= 'Z') || ('0' <= c && c <= '9')
}

/// Turns heading text into a lowercase, URL-safe identifier: ASCII letters and
/// digits are kept, every other run of characters between words becomes a
/// single hyphen, and text without any letter or digit gives "heading".
pub fn to_id(s: &str) -> (r: String)
    ensures
        r@ == canonical(s@),
        is_canonical(r@),
{
    let mut out = String::new();
    let mut pending = false;
    let mut empty = true;
    for c in it: s.chars()
        invariant
            it.seq() == s@,
            empty == (out@.len() == 0),
            (out@, pending) == scan(s@.take(it.index() as int)),
    {
        proof {
            assert(s@.take(it.index() + 1).drop_last() =~= s@.take(it.index() as int));
        }
        if is_word_char_exec(c) {
            if pending {
                push_char(&mut out, '-');
            }
            push_char(&mut out, lower_char(c));
            pending = false;
            empty = false;
        } else {
            pending = !empty;
        }
    }
    proof {
        assert(s@.take(s@.len() as int) =~= s@);
        lemma_canonical_idempotent(s@);
    }
    if empty {
        out = String::from_str("heading");
        proof {
            reveal_strlit("heading");
            assert(out@ =~= fallback_id());
        }
    }
    out
}

} // verus!
