//! Verified text machinery over `&str` views: character-level equality,
//! substring search and replace, markup escaping and unescaping, decimal and
//! hexadecimal rendering, line splitting, NUL trimming, greedy subsequence
//! matching, and the shielding lemmas that bound where a token can first
//! occur in a concatenated document.
use vstd::prelude::*;

verus! {

/// Compares two string slices character by character.
pub fn str_eq(a: &str, b: &str) -> (r: bool)
    ensures
        r == (a@ == b@),
{
    let alen = a.unicode_len();
    let blen = b.unicode_len();
    if alen != blen {
        assert(a@ != b@) by {
            assert(a@.len() != b@.len());
        }
        false
    } else {
        let mut i: usize = 0;
        while i < alen
            invariant
                alen == a@.len(),
                alen == b@.len(),
                i <= alen,
                forall|m: int| 0 <= m < i ==> a@[m] == b@[m],
            decreases alen - i,
        {
            if a.get_char(i) != b.get_char(i) {
                return false;
            }
            i += 1;
        }
        assert(a@ =~= b@);
        true
    }
}

/// `t` occurs in `s` starting at position `i`.
pub open spec fn occurs_at(s: Seq<char>, t: Seq<char>, i: int) -> bool {
    0 <= i && i + t.len() <= s.len() && s.subrange(i, i + t.len() as int) == t
}

/// `t` occurs somewhere in `s`, scanning from the left.
pub open spec fn contains_sub(s: Seq<char>, t: Seq<char>) -> bool
    decreases s.len(),
{
    if t.len() == 0 {
        true
    } else if s.len() < t.len() {
        false
    } else {
        s.subrange(0, t.len() as int) == t || contains_sub(s.skip(1), t)
    }
}

/// Position of the first occurrence of `t` in `s`, if any.
pub open spec fn find_sub(s: Seq<char>, t: Seq<char>) -> Option<int>
    decreases s.len(),
{
    if t.len() == 0 {
        Some(0)
    } else if s.len() < t.len() {
        None
    } else if s.subrange(0, t.len() as int) == t {
        Some(0)
    } else {
        match find_sub(s.skip(1), t) {
            None => None,
            Some(i) => Some(i + 1),
        }
    }
}

/// Occurrences in the tail of a sequence are occurrences of the whole, shifted.
proof fn lemma_occurs_skip(s: Seq<char>, t: Seq<char>, i: int)
    requires
        0 <= i <= s.len(),
    ensures
        forall|j: int| 0 <= j ==> (occurs_at(s.skip(i), t, j) <==> occurs_at(s, t, i + j)),
{
    assert forall|j: int| 0 <= j implies (occurs_at(s.skip(i), t, j) <==> occurs_at(
        s,
        t,
        i + j,
    )) by {
        if occurs_at(s.skip(i), t, j) {
            assert(s.subrange(i + j, i + j + t.len() as int) =~= s.skip(i).subrange(
                j,
                j + t.len() as int,
            ));
        }
        if occurs_at(s, t, i + j) {
            assert(s.skip(i).subrange(j, j + t.len() as int) =~= s.subrange(
                i + j,
                i + j + t.len() as int,
            ));
        }
    }
}

/// `contains_sub` holds exactly when some occurrence exists.
pub proof fn lemma_contains_exists(s: Seq<char>, t: Seq<char>)
    ensures
        contains_sub(s, t) <==> exists|i: int| occurs_at(s, t, i),
    decreases s.len(),
{
    if t.len() == 0 {
        assert(s.subrange(0, 0) =~= t);
        assert(occurs_at(s, t, 0));
    } else if s.len() < t.len() {
        assert(forall|i: int| !occurs_at(s, t, i));
    } else {
        lemma_contains_exists(s.skip(1), t);
        lemma_occurs_skip(s, t, 1);
        if contains_sub(s, t) {
            if s.subrange(0, t.len() as int) == t {
                assert(occurs_at(s, t, 0));
            } else {
                let i = choose|i: int| occurs_at(s.skip(1), t, i);
                assert(occurs_at(s, t, 1 + i));
            }
        }
        if exists|i: int| occurs_at(s, t, i) {
            let i = choose|i: int| occurs_at(s, t, i);
            if i == 0 {
                assert(s.subrange(0, t.len() as int) == t);
            } else {
                assert(occurs_at(s.skip(1), t, i - 1));
            }
        }
    }
}

/// `find_sub` returns the first occurrence: an occurrence, with none before it.
pub proof fn lemma_find_first(s: Seq<char>, t: Seq<char>)
    ensures
        match find_sub(s, t) {
            Some(i) => occurs_at(s, t, i) && forall|j: int| 0 <= j < i ==> !occurs_at(s, t, j),
            None => forall|j: int| !occurs_at(s, t, j),
        },
    decreases s.len(),
{
    if t.len() == 0 {
        assert(s.subrange(0, 0) =~= t);
        assert(occurs_at(s, t, 0));
    } else if s.len() < t.len() {
        assert(forall|j: int| !occurs_at(s, t, j));
    } else if s.subrange(0, t.len() as int) == t {
        assert(occurs_at(s, t, 0));
    } else {
        lemma_find_first(s.skip(1), t);
        lemma_occurs_skip(s, t, 1);
        match find_sub(s.skip(1), t) {
            None => {
                assert forall|j: int| !occurs_at(s, t, j) by {
                    if 0 < j {
                        assert(!occurs_at(s.skip(1), t, j - 1));
                    }
                }
            },
            Some(i) => {
                assert(occurs_at(s, t, i + 1));
                assert forall|j: int| 0 <= j < i + 1 implies !occurs_at(s, t, j) by {
                    if 0 < j {
                        assert(!occurs_at(s.skip(1), t, j - 1));
                    }
                }
            },
        }
    }
}

/// A first occurrence (one with none before it) is what `find_sub` returns.
pub proof fn lemma_first_occurrence_is_find(s: Seq<char>, t: Seq<char>, p: int)
    requires
        occurs_at(s, t, p),
        forall|j: int| 0 <= j < p ==> !occurs_at(s, t, j),
    ensures
        find_sub(s, t) == Some(p),
{
    lemma_find_first(s, t);
    match find_sub(s, t) {
        None => {
            assert(false);
        },
        Some(i) => {
            if i < p {
                assert(occurs_at(s, t, i));
                assert(false);
            }
            if p < i {
                assert(!occurs_at(s, t, p));
                assert(false);
            }
        },
    }
}

/// Checks whether `t` occurs in `s` at position `i`.
fn match_at(s: &str, t: &str, i: usize, slen: usize, tlen: usize) -> (r: bool)
    requires
        slen == s@.len(),
        tlen == t@.len(),
        i + tlen <= slen,
    ensures
        r == occurs_at(s@, t@, i as int),
{
    let mut k: usize = 0;
    while k < tlen
        invariant
            slen == s@.len(),
            tlen == t@.len(),
            i + tlen <= slen,
            k <= tlen,
            forall|m: int| 0 <= m < k ==> s@[i + m] == t@[m],
        decreases tlen - k,
    {
        if s.get_char(i + k) != t.get_char(k) {
            assert(s@.subrange(i as int, i + tlen) != t@) by {
                assert(s@.subrange(i as int, i + tlen)[k as int] == s@[i + k]);
            }
            return false;
        }
        k += 1;
    }
    assert(s@.subrange(i as int, i + tlen) =~= t@);
    true
}

/// Position of the first occurrence of `t` in `s`.
pub fn find_str(s: &str, t: &str) -> (r: Option<usize>)
    ensures
        match r {
            Some(i) => find_sub(s@, t@) == Some(i as int),
            None => find_sub(s@, t@) is None,
        },
{
    let slen = s.unicode_len();
    let tlen = t.unicode_len();
    if tlen == 0 {
        return Some(0);
    }
    if tlen > slen {
        return None;
    }
    let mut i: usize = 0;
    while i <= slen - tlen
        invariant
            slen == s@.len(),
            tlen == t@.len(),
            0 < tlen <= slen,
            i <= slen - tlen + 1,
            forall|j: int| 0 <= j < i ==> !occurs_at(s@, t@, j),
        decreases slen - i,
    {
        if match_at(s, t, i, slen, tlen) {
            proof {
                lemma_first_occurrence_is_find(s@, t@, i as int);
            }
            return Some(i);
        }
        i += 1;
    }
    proof {
        lemma_find_first(s@, t@);
        match find_sub(s@, t@) {
            Some(p) => {
                assert(occurs_at(s@, t@, p));
                assert(false);
            },
            None => {},
        }
    }
    None
}

/// Every occurrence of `t` in `s` replaced by `r`, scanning left to right
/// without rescanning replaced text, as `str::replace` does.
pub open spec fn replace_sub(s: Seq<char>, t: Seq<char>, r: Seq<char>) -> Seq<char>
    decreases s.len(),
{
    if t.len() == 0 || s.len() < t.len() {
        s
    } else if s.subrange(0, t.len() as int) == t {
        r + replace_sub(s.skip(t.len() as int), t, r)
    } else {
        seq![s[0]] + replace_sub(s.skip(1), t, r)
    }
}

/// Replacing a pattern by itself changes nothing.
pub proof fn lemma_replace_self(s: Seq<char>, t: Seq<char>)
    ensures
        replace_sub(s, t, t) == s,
    decreases s.len(),
{
    if t.len() == 0 || s.len() < t.len() {
    } else if s.subrange(0, t.len() as int) == t {
        lemma_replace_self(s.skip(t.len() as int), t);
        assert(t + s.skip(t.len() as int) =~= s);
    } else {
        lemma_replace_self(s.skip(1), t);
        assert(seq![s[0]] + s.skip(1) =~= s);
    }
}

/// If the pattern occurred, the replacement text occurs in the result.
pub proof fn lemma_replace_contains(s: Seq<char>, t: Seq<char>, r: Seq<char>)
    requires
        0 < t.len(),
        contains_sub(s, t),
    ensures
        contains_sub(replace_sub(s, t, r), r),
    decreases s.len(),
{
    if s.subrange(0, t.len() as int) == t {
        let rep = replace_sub(s, t, r);
        assert(rep == r + replace_sub(s.skip(t.len() as int), t, r));
        assert(rep.subrange(0, r.len() as int) =~= r);
        lemma_contains_exists(rep, r);
        assert(occurs_at(rep, r, 0));
    } else {
        lemma_replace_contains(s.skip(1), t, r);
        let inner = replace_sub(s.skip(1), t, r);
        let rep = seq![s[0]] + inner;
        lemma_contains_exists(inner, r);
        lemma_contains_exists(rep, r);
        let i = choose|i: int| occurs_at(inner, r, i);
        assert(rep.subrange(1 + i, 1 + i + r.len() as int) =~= inner.subrange(
            i,
            i + r.len() as int,
        ));
        assert(occurs_at(rep, r, 1 + i));
    }
}

/// Builds `s` with every occurrence of `t` replaced by `r`.
pub fn replace_str(s: &str, t: &str, r: &str) -> (out: String)
    requires
        t@.len() > 0,
    ensures
        out@ == replace_sub(s@, t@, r@),
{
    let slen = s.unicode_len();
    let tlen = t.unicode_len();
    let mut out = String::new();
    let mut i: usize = 0;
    proof {
        assert(s@.skip(0) =~= s@);
        assert(out@ + replace_sub(s@, t@, r@) =~= replace_sub(s@, t@, r@));
    }
    while tlen <= slen && i <= slen - tlen
        invariant
            slen == s@.len(),
            tlen == t@.len(),
            0 < tlen,
            i <= slen,
            out@ + replace_sub(s@.skip(i as int), t@, r@) == replace_sub(s@, t@, r@),
        decreases slen - i,
    {
        proof {
            lemma_occurs_skip(s@, t@, i as int);
        }
        if match_at(s, t, i, slen, tlen) {
            assert(s@.skip(i as int).subrange(0, tlen as int) =~= s@.subrange(
                i as int,
                i + tlen,
            ));
            out.append(r);
            proof {
                assert(s@.skip(i as int).skip(tlen as int) =~= s@.skip(i + tlen));
            }
            i += tlen;
        } else {
            assert(s@.skip(i as int).subrange(0, tlen as int) =~= s@.subrange(
                i as int,
                i + tlen,
            ));
            let piece = s.substring_char(i, i + 1);
            out.append(piece);
            proof {
                assert(s@.skip(i as int).skip(1) =~= s@.skip(i + 1));
                assert(seq![s@.skip(i as int)[0]] =~= piece@);
            }
            i += 1;
        }
    }
    let tail = s.substring_char(i, slen);
    out.append(tail);
    proof {
        assert(s@.skip(i as int).len() < t@.len());
        assert(tail@ =~= s@.skip(i as int));
    }
    out
}

/// Whether `t` occurs anywhere in `s`.
pub fn contains_str(s: &str, t: &str) -> (r: bool)
    ensures
        r == contains_sub(s@, t@),
{
    let found = find_str(s, t);
    proof {
        lemma_contains_exists(s@, t@);
        lemma_find_first(s@, t@);
        match find_sub(s@, t@) {
            Some(p) => {
                assert(occurs_at(s@, t@, p));
            },
            None => {},
        }
    }
    found.is_some()
}

/// `s` begins with `p`.
pub open spec fn starts_with(s: Seq<char>, p: Seq<char>) -> bool {
    p.len() <= s.len() && s.subrange(0, p.len() as int) == p
}

/// The five markup-reserved characters and their entity spellings.
pub open spec fn xml_escape_char(c: char) -> Seq<char> {
    if c == '&' {
        seq!['&', 'a', 'm', 'p', ';']
    } else if c == '<' {
        seq!['&', 'l', 't', ';']
    } else if c == '>' {
        seq!['&', 'g', 't', ';']
    } else if c == '"' {
        seq!['&', 'q', 'u', 'o', 't', ';']
    } else if c == '\'' {
        seq!['&', 'a', 'p', 'o', 's', ';']
    } else {
        seq![c]
    }
}

/// `s` with every markup-reserved character written as its entity.
pub open spec fn xml_escape(s: Seq<char>) -> Seq<char>
    decreases s.len(),
{
    if s.len() == 0 {
        Seq::empty()
    } else {
        xml_escape_char(s[0]) + xml_escape(s.skip(1))
    }
}

/// `s` with every entity spelling read back as its character, scanning left
/// to right.
pub open spec fn xml_unescape(s: Seq<char>) -> Seq<char>
    decreases s.len(),
{
    if s.len() == 0 {
        Seq::empty()
    } else if starts_with(s, seq!['&', 'a', 'm', 'p', ';']) {
        seq!['&'] + xml_unescape(s.skip(5))
    } else if starts_with(s, seq!['&', 'l', 't', ';']) {
        seq!['<'] + xml_unescape(s.skip(4))
    } else if starts_with(s, seq!['&', 'g', 't', ';']) {
        seq!['>'] + xml_unescape(s.skip(4))
    } else if starts_with(s, seq!['&', 'q', 'u', 'o', 't', ';']) {
        seq!['"'] + xml_unescape(s.skip(6))
    } else if starts_with(s, seq!['&', 'a', 'p', 'o', 's', ';']) {
        seq!['\''] + xml_unescape(s.skip(6))
    } else {
        seq![s[0]] + xml_unescape(s.skip(1))
    }
}

/// Escaping introduces no `<`: everything the escape emits is either an
/// entity, which opens with `&`, or an unreserved character.
pub proof fn lemma_escape_lt_free(s: Seq<char>)
    ensures
        forall|i: int| 0 <= i < xml_escape(s).len() ==> xml_escape(s)[i] != '<',
    decreases s.len(),
{
    if s.len() > 0 {
        lemma_escape_lt_free(s.skip(1));
        let head = xml_escape_char(s[0]);
        let tail = xml_escape(s.skip(1));
        assert forall|i: int| 0 <= i < xml_escape(s).len() implies xml_escape(s)[i] != '<' by {
            if i < head.len() {
                assert(xml_escape(s)[i] == head[i]);
            } else {
                assert(xml_escape(s)[i] == tail[i - head.len()]);
            }
        }
    }
}

/// Escaping never shortens a text: every character becomes one character or
/// a longer entity.
pub proof fn lemma_escape_len(s: Seq<char>)
    ensures
        xml_escape(s).len() >= s.len(),
    decreases s.len(),
{
    if s.len() > 0 {
        lemma_escape_len(s.skip(1));
    }
}

/// Reading an escaped text back yields the original: the round trip of the
/// two codecs is the identity.
pub proof fn lemma_unescape_escape(s: Seq<char>)
    ensures
        xml_unescape(xml_escape(s)) == s,
    decreases s.len(),
{
    if s.len() == 0 {
        assert(xml_unescape(xml_escape(s)) =~= s);
    } else {
        lemma_unescape_escape(s.skip(1));
        let c = s[0];
        let head = xml_escape_char(c);
        let tail = xml_escape(s.skip(1));
        let e = head + tail;
        assert(xml_escape(s) == e);
        assert forall|p: Seq<char>|
            p.len() <= head.len() && #[trigger] starts_with(e, p) implies p
            == head.subrange(0, p.len() as int) by {
            assert(e.subrange(0, p.len() as int) =~= head.subrange(0, p.len() as int));
        }
        if c == '&' {
            assert(starts_with(e, seq!['&', 'a', 'm', 'p', ';'])) by {
                assert(e.subrange(0, 5) =~= seq!['&', 'a', 'm', 'p', ';']);
            }
            assert(e.skip(5) =~= tail);
            assert(xml_unescape(e) == seq!['&'] + xml_unescape(tail));
            assert(seq!['&'] + s.skip(1) =~= s);
        } else if c == '<' {
            assert(starts_with(e, seq!['&', 'l', 't', ';'])) by {
                assert(e.subrange(0, 4) =~= seq!['&', 'l', 't', ';']);
            }
            assert(!starts_with(e, seq!['&', 'a', 'm', 'p', ';']));
            assert(e.skip(4) =~= tail);
            assert(seq!['<'] + s.skip(1) =~= s);
        } else if c == '>' {
            assert(starts_with(e, seq!['&', 'g', 't', ';'])) by {
                assert(e.subrange(0, 4) =~= seq!['&', 'g', 't', ';']);
            }
            assert(!starts_with(e, seq!['&', 'a', 'm', 'p', ';']));
            assert(!starts_with(e, seq!['&', 'l', 't', ';']));
            assert(e.skip(4) =~= tail);
            assert(seq!['>'] + s.skip(1) =~= s);
        } else if c == '"' {
            assert(starts_with(e, seq!['&', 'q', 'u', 'o', 't', ';'])) by {
                assert(e.subrange(0, 6) =~= seq!['&', 'q', 'u', 'o', 't', ';']);
            }
            assert(!starts_with(e, seq!['&', 'a', 'm', 'p', ';']));
            assert(!starts_with(e, seq!['&', 'l', 't', ';']));
            assert(!starts_with(e, seq!['&', 'g', 't', ';']));
            assert(e.skip(6) =~= tail);
            assert(seq!['"'] + s.skip(1) =~= s);
        } else if c == '\'' {
            assert(starts_with(e, seq!['&', 'a', 'p', 'o', 's', ';'])) by {
                assert(e.subrange(0, 6) =~= seq!['&', 'a', 'p', 'o', 's', ';']);
            }
            assert(!starts_with(e, seq!['&', 'a', 'm', 'p', ';']));
            assert(!starts_with(e, seq!['&', 'l', 't', ';']));
            assert(!starts_with(e, seq!['&', 'g', 't', ';']));
            assert(!starts_with(e, seq!['&', 'q', 'u', 'o', 't', ';']));
            assert(e.skip(6) =~= tail);
            assert(seq!['\''] + s.skip(1) =~= s);
        } else {
            assert(e[0] == c);
            assert(!starts_with(e, seq!['&', 'a', 'm', 'p', ';']));
            assert(!starts_with(e, seq!['&', 'l', 't', ';']));
            assert(!starts_with(e, seq!['&', 'g', 't', ';']));
            assert(!starts_with(e, seq!['&', 'q', 'u', 'o', 't', ';']));
            assert(!starts_with(e, seq!['&', 'a', 'p', 'o', 's', ';']));
            assert(e.skip(1) =~= tail);
            assert(seq![c] + s.skip(1) =~= s);
        }
    }
}

/// Escapes the five markup-reserved characters of `s`.
pub fn escape_xml_text(s: &str) -> (out: String)
    ensures
        out@ == xml_escape(s@),
{
    let slen = s.unicode_len();
    let mut out = String::new();
    let mut i: usize = 0;
    proof {
        assert(s@.skip(0) =~= s@);
        assert(out@ + xml_escape(s@) =~= xml_escape(s@));
    }
    while i < slen
        invariant
            slen == s@.len(),
            i <= slen,
            out@ + xml_escape(s@.skip(i as int)) == xml_escape(s@),
        decreases slen - i,
    {
        let c = s.get_char(i);
        proof {
            assert(s@.skip(i as int)[0] == s@[i as int]);
            assert(s@.skip(i as int).skip(1) =~= s@.skip(i + 1));
        }
        if c == '&' {
            out.append("&amp;");
            proof {
                reveal_strlit("&amp;");
                assert("&amp;"@ =~= xml_escape_char(c));
            }
        } else if c == '<' {
            out.append("&lt;");
            proof {
                reveal_strlit("&lt;");
                assert("&lt;"@ =~= xml_escape_char(c));
            }
        } else if c == '>' {
            out.append("&gt;");
            proof {
                reveal_strlit("&gt;");
                assert("&gt;"@ =~= xml_escape_char(c));
            }
        } else if c == '"' {
            out.append("&quot;");
            proof {
                reveal_strlit("&quot;");
                assert("&quot;"@ =~= xml_escape_char(c));
            }
        } else if c == '\'' {
            out.append("&apos;");
            proof {
                reveal_strlit("&apos;");
                assert("&apos;"@ =~= xml_escape_char(c));
            }
        } else {
            let piece = s.substring_char(i, i + 1);
            out.append(piece);
            proof {
                assert(piece@ =~= xml_escape_char(c));
            }
        }
        i += 1;
    }
    assert(s@.skip(slen as int) =~= Seq::<char>::empty());
    assert(out@ + xml_escape(s@.skip(slen as int)) =~= out@);
    out
}

/// Reads the entity spellings of `s` back into characters.
pub fn unescape_xml_text(s: &str) -> (out: String)
    ensures
        out@ == xml_unescape(s@),
{
    let slen = s.unicode_len();
    let mut out = String::new();
    let mut i: usize = 0;
    proof {
        assert(s@.skip(0) =~= s@);
        assert(out@ + xml_unescape(s@) =~= xml_unescape(s@));
    }
    while i < slen
        invariant
            slen == s@.len(),
            i <= slen,
            out@ + xml_unescape(s@.skip(i as int)) == xml_unescape(s@),
        decreases slen - i,
    {
        let ghost rest = s@.skip(i as int);
        proof {
            assert(rest[0] == s@[i as int]);
            reveal_strlit("&amp;");
            reveal_strlit("&lt;");
            reveal_strlit("&gt;");
            reveal_strlit("&quot;");
            reveal_strlit("&apos;");
            assert("&amp;"@ =~= seq!['&', 'a', 'm', 'p', ';']);
            assert("&lt;"@ =~= seq!['&', 'l', 't', ';']);
            assert("&gt;"@ =~= seq!['&', 'g', 't', ';']);
            assert("&quot;"@ =~= seq!['&', 'q', 'u', 'o', 't', ';']);
            assert("&apos;"@ =~= seq!['&', 'a', 'p', 'o', 's', ';']);
        }
        let mut step: usize = 1;
        if entity_at(s, i, slen, "&amp;", 5) {
            out.append("&");
            step = 5;
            proof {
                reveal_strlit("&amp;");
                reveal_strlit("&");
                assert(starts_with(rest, seq!['&', 'a', 'm', 'p', ';'])) by {
                    assert(rest.subrange(0, 5) =~= seq!['&', 'a', 'm', 'p', ';']);
                }
                assert("&"@ =~= seq!['&']);
            }
        } else if entity_at(s, i, slen, "&lt;", 4) {
            out.append("<");
            step = 4;
            proof {
                reveal_strlit("&amp;");
                reveal_strlit("&lt;");
                reveal_strlit("<");
                assert(starts_with(rest, seq!['&', 'l', 't', ';'])) by {
                    assert(rest.subrange(0, 4) =~= seq!['&', 'l', 't', ';']);
                }
                assert(!starts_with(rest, seq!['&', 'a', 'm', 'p', ';']));
                assert("<"@ =~= seq!['<']);
            }
        } else if entity_at(s, i, slen, "&gt;", 4) {
            out.append(">");
            step = 4;
            proof {
                reveal_strlit("&amp;");
                reveal_strlit("&gt;");
                reveal_strlit(">");
                assert(starts_with(rest, seq!['&', 'g', 't', ';'])) by {
                    assert(rest.subrange(0, 4) =~= seq!['&', 'g', 't', ';']);
                }
                assert(!starts_with(rest, seq!['&', 'a', 'm', 'p', ';']));
                assert(!starts_with(rest, seq!['&', 'l', 't', ';']));
                assert(">"@ =~= seq!['>']);
            }
        } else if entity_at(s, i, slen, "&quot;", 6) {
            out.append("\"");
            step = 6;
            proof {
                reveal_strlit("&amp;");
                reveal_strlit("&lt;");
                reveal_strlit("&gt;");
                reveal_strlit("&quot;");
                reveal_strlit("\"");
                assert(starts_with(rest, seq!['&', 'q', 'u', 'o', 't', ';'])) by {
                    assert(rest.subrange(0, 6) =~= seq!['&', 'q', 'u', 'o', 't', ';']);
                }
                assert(!starts_with(rest, seq!['&', 'a', 'm', 'p', ';']));
                assert(!starts_with(rest, seq!['&', 'l', 't', ';']));
                assert(!starts_with(rest, seq!['&', 'g', 't', ';']));
                assert("\""@ =~= seq!['"']);
            }
        } else if entity_at(s, i, slen, "&apos;", 6) {
            out.append("'");
            step = 6;
            proof {
                reveal_strlit("&amp;");
                reveal_strlit("&lt;");
                reveal_strlit("&gt;");
                reveal_strlit("&quot;");
                reveal_strlit("&apos;");
                reveal_strlit("'");
                assert(starts_with(rest, seq!['&', 'a', 'p', 'o', 's', ';'])) by {
                    assert(rest.subrange(0, 6) =~= seq!['&', 'a', 'p', 'o', 's', ';']);
                }
                assert(!starts_with(rest, seq!['&', 'a', 'm', 'p', ';']));
                assert(!starts_with(rest, seq!['&', 'l', 't', ';']));
                assert(!starts_with(rest, seq!['&', 'g', 't', ';']));
                assert(!starts_with(rest, seq!['&', 'q', 'u', 'o', 't', ';']));
                assert("'"@ =~= seq!['\'']);
            }
        } else {
            let piece = s.substring_char(i, i + 1);
            out.append(piece);
            proof {
                reveal_strlit("&amp;");
                reveal_strlit("&lt;");
                reveal_strlit("&gt;");
                reveal_strlit("&quot;");
                reveal_strlit("&apos;");
                assert(!starts_with(rest, seq!['&', 'a', 'm', 'p', ';']));
                assert(!starts_with(rest, seq!['&', 'l', 't', ';']));
                assert(!starts_with(rest, seq!['&', 'g', 't', ';']));
                assert(!starts_with(rest, seq!['&', 'q', 'u', 'o', 't', ';']));
                assert(!starts_with(rest, seq!['&', 'a', 'p', 'o', 's', ';']));
                assert(piece@ =~= seq![rest[0]]);
            }
        }
        proof {
            assert(rest.skip(step as int) =~= s@.skip(i + step));
        }
        i += step;
    }
    assert(s@.skip(slen as int) =~= Seq::<char>::empty());
    assert(out@ + xml_unescape(s@.skip(slen as int)) =~= out@);
    out
}

/// A match of `t` starting at position `j` of `p` fails at some index that
/// still lies inside `p`.
pub open spec fn mismatch_from(p: Seq<char>, t: Seq<char>, j: int) -> bool {
    exists|k: int| 0 <= k < t.len() && j + k < p.len() && p[j + k] != t[k]
}

/// Every position of `p` refutes a match of `t` within `p` itself, so no
/// occurrence of `t` can begin inside `p`, whatever text follows it.
pub open spec fn shielded(p: Seq<char>, t: Seq<char>) -> bool {
    forall|j: int| 0 <= j < p.len() ==> mismatch_from(p, t, j)
}

/// Shielding is preserved by concatenation: a refutation inside either part
/// stays a refutation inside the whole.
pub proof fn lemma_shielded_concat(a: Seq<char>, b: Seq<char>, t: Seq<char>)
    requires
        shielded(a, t),
        shielded(b, t),
    ensures
        shielded(a + b, t),
{
    assert forall|j: int| 0 <= j < (a + b).len() implies mismatch_from(a + b, t, j) by {
        if j < a.len() {
            assert(mismatch_from(a, t, j));
            let k = choose|k: int| 0 <= k < t.len() && j + k < a.len() && a[j + k] != t[k];
            assert((a + b)[j + k] == a[j + k]);
        } else {
            let j2 = j - a.len();
            assert(mismatch_from(b, t, j2));
            let k = choose|k: int| 0 <= k < t.len() && j2 + k < b.len() && b[j2 + k] != t[k];
            assert((a + b)[j + k] == b[j2 + k]);
        }
    }
}

/// A text free of the token's first character is shielded against it.
pub proof fn lemma_shielded_head_free(s: Seq<char>, t: Seq<char>)
    requires
        t.len() > 0,
        forall|i: int| 0 <= i < s.len() ==> s[i] != t[0],
    ensures
        shielded(s, t),
{
    assert forall|j: int| 0 <= j < s.len() implies mismatch_from(s, t, j) by {
        assert(s[j + 0] != t[0]);
    }
}

/// No occurrence of `t` begins inside a shielded prefix, whatever follows.
pub proof fn lemma_shielded_no_occurrence(p: Seq<char>, rest: Seq<char>, t: Seq<char>)
    requires
        shielded(p, t),
    ensures
        forall|j: int| 0 <= j < p.len() ==> !occurs_at(p + rest, t, j),
{
    assert forall|j: int| 0 <= j < p.len() implies !occurs_at(p + rest, t, j) by {
        assert(mismatch_from(p, t, j));
        let k = choose|k: int| 0 <= k < t.len() && j + k < p.len() && p[j + k] != t[k];
        if occurs_at(p + rest, t, j) {
            assert((p + rest).subrange(j, j + t.len() as int)[k] == (p + rest)[j + k]);
            assert((p + rest)[j + k] == p[j + k]);
        }
    }
}

/// A mismatch at one definite index refutes a match beginning at `j`.
pub proof fn lemma_mismatch_witness(p: Seq<char>, t: Seq<char>, j: int, k: int)
    requires
        0 <= k < t.len(),
        j + k < p.len(),
        p[j + k] != t[k],
    ensures
        mismatch_from(p, t, j),
{
    assert(0 <= k < t.len() && j + k < p.len() && p[j + k] != t[k]);
}

/// A text in which every would-be match of `t` fails within its first six
/// characters, before running off the end of the text, is shielded.
pub proof fn lemma_shield_literal(l: Seq<char>, t: Seq<char>)
    requires
        t.len() >= 6,
        forall|j: int|
            0 <= j < l.len() ==> #[trigger] l[j] != t[0] || (j + 1 < l.len() && l[j + 1] != t[1])
                || (j + 2 < l.len() && l[j + 2] != t[2]) || (j + 3 < l.len() && l[j + 3] != t[3])
                || (j + 4 < l.len() && l[j + 4] != t[4]) || (j + 5 < l.len() && l[j + 5] != t[5]),
    ensures
        shielded(l, t),
{
    assert forall|j: int| 0 <= j < l.len() implies mismatch_from(l, t, j) by {
        if l[j] != t[0] {
            lemma_mismatch_witness(l, t, j, 0);
        } else if j + 1 < l.len() && l[j + 1] != t[1] {
            lemma_mismatch_witness(l, t, j, 1);
        } else if j + 2 < l.len() && l[j + 2] != t[2] {
            lemma_mismatch_witness(l, t, j, 2);
        } else if j + 3 < l.len() && l[j + 3] != t[3] {
            lemma_mismatch_witness(l, t, j, 3);
        } else if j + 4 < l.len() && l[j + 4] != t[4] {
            lemma_mismatch_witness(l, t, j, 4);
        } else {
            lemma_mismatch_witness(l, t, j, 5);
        }
    }
}

/// The character for one decimal digit.
pub open spec fn dec_digit(d: int) -> char {
    if d == 0 {
        '0'
    } else if d == 1 {
        '1'
    } else if d == 2 {
        '2'
    } else if d == 3 {
        '3'
    } else if d == 4 {
        '4'
    } else if d == 5 {
        '5'
    } else if d == 6 {
        '6'
    } else if d == 7 {
        '7'
    } else if d == 8 {
        '8'
    } else {
        '9'
    }
}

/// The character for one hexadecimal digit, upper case.
pub open spec fn hex_digit(d: int) -> char {
    if d < 10 {
        dec_digit(d)
    } else if d == 10 {
        'A'
    } else if d == 11 {
        'B'
    } else if d == 12 {
        'C'
    } else if d == 13 {
        'D'
    } else if d == 14 {
        'E'
    } else {
        'F'
    }
}

/// `n` written in decimal, most significant digit first.
pub open spec fn dec_chars(n: int) -> Seq<char>
    decreases n,
{
    if n < 10 {
        seq![dec_digit(n)]
    } else {
        dec_chars(n / 10) + seq![dec_digit(n % 10)]
    }
}

/// `n` written in upper-case hexadecimal, most significant digit first.
pub open spec fn hex_chars(n: int) -> Seq<char>
    decreases n,
{
    if n < 16 {
        seq![hex_digit(n)]
    } else {
        hex_chars(n / 16) + seq![hex_digit(n % 16)]
    }
}

/// Appends the single character for the decimal digit `d`.
fn push_dec_digit(out: &mut String, d: u32)
    requires
        d < 10,
    ensures
        final(out)@ == old(out)@ + seq![dec_digit(d as int)],
{
    let piece = match d {
        0 => "0",
        1 => "1",
        2 => "2",
        3 => "3",
        4 => "4",
        5 => "5",
        6 => "6",
        7 => "7",
        8 => "8",
        _ => "9",
    };
    out.append(piece);
    proof {
        reveal_strlit("0");
        reveal_strlit("1");
        reveal_strlit("2");
        reveal_strlit("3");
        reveal_strlit("4");
        reveal_strlit("5");
        reveal_strlit("6");
        reveal_strlit("7");
        reveal_strlit("8");
        reveal_strlit("9");
        assert(piece@ =~= seq![dec_digit(d as int)]);
    }
}

/// Appends the single character for the hexadecimal digit `d`.
fn push_hex_digit(out: &mut String, d: u32)
    requires
        d < 16,
    ensures
        final(out)@ == old(out)@ + seq![hex_digit(d as int)],
{
    if d < 10 {
        push_dec_digit(out, d);
    } else {
        let piece = match d {
            10 => "A",
            11 => "B",
            12 => "C",
            13 => "D",
            14 => "E",
            _ => "F",
        };
        out.append(piece);
        proof {
            reveal_strlit("A");
            reveal_strlit("B");
            reveal_strlit("C");
            reveal_strlit("D");
            reveal_strlit("E");
            reveal_strlit("F");
            assert(piece@ =~= seq![hex_digit(d as int)]);
        }
    }
}

/// Appends `n` in decimal.
pub fn push_dec(out: &mut String, n: u32)
    ensures
        final(out)@ == old(out)@ + dec_chars(n as int),
    decreases n,
{
    if n < 10 {
        push_dec_digit(out, n);
    } else {
        push_dec(out, n / 10);
        push_dec_digit(out, n % 10);
        proof {
            assert(old(out)@ + dec_chars(n as int / 10) + seq![dec_digit(n as int % 10)] =~= old(
                out,
            )@ + dec_chars(n as int));
        }
    }
}

/// Appends `n` in upper-case hexadecimal.
pub fn push_hex(out: &mut String, n: u32)
    ensures
        final(out)@ == old(out)@ + hex_chars(n as int),
    decreases n,
{
    if n < 16 {
        push_hex_digit(out, n);
    } else {
        push_hex(out, n / 16);
        push_hex_digit(out, n % 16);
        proof {
            assert(old(out)@ + hex_chars(n as int / 16) + seq![hex_digit(n as int % 16)] =~= old(
                out,
            )@ + hex_chars(n as int));
        }
    }
}

/// The characters of `p` appear in `s`, in order, matched greedily.
pub open spec fn is_subseq_of(p: Seq<char>, s: Seq<char>) -> bool
    decreases s.len(),
{
    if p.len() == 0 {
        true
    } else if s.len() == 0 {
        false
    } else if p[0] == s[0] {
        is_subseq_of(p.skip(1), s.skip(1))
    } else {
        is_subseq_of(p, s.skip(1))
    }
}

/// Greedy in-order subsequence test.
pub fn subseq_match(p: &str, s: &str) -> (r: bool)
    ensures
        r == is_subseq_of(p@, s@),
{
    let plen = p.unicode_len();
    let slen = s.unicode_len();
    let mut pi: usize = 0;
    let mut si: usize = 0;
    proof {
        assert(p@.skip(0) =~= p@);
        assert(s@.skip(0) =~= s@);
    }
    while pi < plen && si < slen
        invariant
            plen == p@.len(),
            slen == s@.len(),
            pi <= plen,
            si <= slen,
            is_subseq_of(p@, s@) == is_subseq_of(p@.skip(pi as int), s@.skip(si as int)),
        decreases slen - si,
    {
        proof {
            assert(p@.skip(pi as int)[0] == p@[pi as int]);
            assert(s@.skip(si as int)[0] == s@[si as int]);
            assert(p@.skip(pi as int).skip(1) =~= p@.skip(pi + 1));
            assert(s@.skip(si as int).skip(1) =~= s@.skip(si + 1));
        }
        if p.get_char(pi) == s.get_char(si) {
            pi += 1;
        }
        si += 1;
    }
    proof {
        if pi == plen {
            assert(p@.skip(pi as int).len() == 0);
        } else {
            assert(s@.skip(si as int).len() == 0);
            assert(p@.skip(pi as int).len() > 0);
        }
    }
    pi == plen
}

/// The trailing NUL padding of a fixed-size name field stripped away, and
/// likewise any leading NULs.
pub open spec fn trim_nuls(s: Seq<char>) -> Seq<char>
    decreases s.len(),
{
    if s.len() == 0 {
        s
    } else if s[0] == '\0' {
        trim_nuls(s.skip(1))
    } else if s[s.len() - 1] == '\0' {
        trim_nuls(s.take(s.len() - 1))
    } else {
        s
    }
}

/// Strips NUL characters from both ends of `s`.
pub fn trim_nul_chars(s: &str) -> (out: String)
    ensures
        out@ == trim_nuls(s@),
{
    let slen = s.unicode_len();
    let mut lo: usize = 0;
    let mut hi: usize = slen;
    proof {
        assert(s@.subrange(0, slen as int) =~= s@);
    }
    while lo < hi && s.get_char(lo) == '\u{0}'
        invariant
            slen == s@.len(),
            lo <= hi <= slen,
            trim_nuls(s@) == trim_nuls(s@.subrange(lo as int, hi as int)),
        decreases hi - lo,
    {
        proof {
            assert(s@.subrange(lo as int, hi as int).skip(1) =~= s@.subrange(lo + 1, hi as int));
        }
        lo += 1;
    }
    while lo < hi && s.get_char(hi - 1) == '\u{0}'
        invariant
            slen == s@.len(),
            lo <= hi <= slen,
            trim_nuls(s@) == trim_nuls(s@.subrange(lo as int, hi as int)),
            lo < hi ==> s@[lo as int] != '\0',
        decreases hi - lo,
    {
        proof {
            let part = s@.subrange(lo as int, hi as int);
            assert(part[0] != '\0');
            assert(part[part.len() - 1] == '\0');
            assert(part.take(part.len() - 1) =~= s@.subrange(lo as int, hi - 1));
        }
        hi -= 1;
    }
    let out = s.substring_char(lo, hi);
    proof {
        let part = s@.subrange(lo as int, hi as int);
        assert(trim_nuls(part) == part);
    }
    String::from_str(out)
}

/// The views of a list of strings.
pub open spec fn str_views(s: Seq<String>) -> Seq<Seq<char>> {
    s.map_values(|x: String| x@)
}

/// A line with one trailing carriage return stripped, as line splitting
/// strips it before a line feed.
pub open spec fn strip_cr(l: Seq<char>) -> Seq<char> {
    if l.len() > 0 && l.last() == '\r' {
        l.drop_last()
    } else {
        l
    }
}

/// The lines of `s`: split at each line feed, a carriage return before the
/// line feed stripped, and no empty line after a final line feed.
pub open spec fn lines_of(s: Seq<char>) -> Seq<Seq<char>>
    decreases s.len(),
{
    if s.len() == 0 {
        Seq::empty()
    } else {
        match find_sub(s, seq!['\n']) {
            None => seq![s],
            Some(i) => if 0 <= i < s.len() {
                seq![strip_cr(s.subrange(0, i))] + lines_of(s.skip(i + 1))
            } else {
                seq![s]
            },
        }
    }
}

/// Splits `s` into its lines.
pub fn split_lines(s: &str) -> (out: Vec<String>)
    ensures
        str_views(out@) == lines_of(s@),
{
    let slen = s.unicode_len();
    let mut out: Vec<String> = Vec::new();
    let mut start: usize = 0;
    proof {
        assert(s@.skip(0) =~= s@);
        assert(str_views(out@) =~= Seq::<Seq<char>>::empty());
        assert(Seq::<Seq<char>>::empty() + lines_of(s@) =~= lines_of(s@));
    }
    while start < slen
        invariant
            slen == s@.len(),
            start <= slen,
            str_views(out@) + lines_of(s@.skip(start as int)) == lines_of(s@),
        decreases slen - start,
    {
        let ghost rest = s@.skip(start as int);
        let mut j: usize = start;
        while j < slen && s.get_char(j) != '\n'
            invariant
                slen == s@.len(),
                start <= j <= slen,
                forall|m: int| start <= m < j ==> s@[m] != '\n',
            decreases slen - j,
        {
            j += 1;
        }
        let ghost prev = out@;
        if j == slen {
            let line = s.substring_char(start, slen);
            out.push(String::from_str(line));
            proof {
                assert forall|p: int| !occurs_at(rest, seq!['\n'], p) by {
                    if 0 <= p <= rest.len() - 1 {
                        assert(rest.subrange(p, p + 1)[0] == rest[p]);
                        assert(rest[p] == s@[start + p]);
                    }
                }
                lemma_find_first(rest, seq!['\n']);
                match find_sub(rest, seq!['\n']) {
                    Some(q) => {
                        assert(occurs_at(rest, seq!['\n'], q));
                        assert(false);
                    },
                    None => {},
                }
                assert(lines_of(rest) == seq![rest]);
                assert(line@ =~= rest);
                assert(str_views(out@) =~= str_views(prev).push(rest));
                assert(str_views(prev).push(rest) =~= str_views(prev) + seq![rest]);
                assert(s@.skip(slen as int) =~= Seq::<char>::empty());
                assert(str_views(out@) + lines_of(s@.skip(slen as int)) =~= str_views(out@));
            }
            start = slen;
        } else {
            let line_end = if j > start && s.get_char(j - 1) == '\r' {
                j - 1
            } else {
                j
            };
            let line = s.substring_char(start, line_end);
            out.push(String::from_str(line));
            proof {
                let rel = (j - start) as int;
                assert(occurs_at(rest, seq!['\n'], rel)) by {
                    assert(rest.subrange(rel, rel + 1) =~= seq![s@[j as int]]);
                }
                assert forall|p: int| 0 <= p < rel implies !occurs_at(rest, seq!['\n'], p) by {
                    assert(rest.subrange(p, p + 1)[0] == rest[p]);
                    assert(rest[p] == s@[start + p]);
                }
                lemma_first_occurrence_is_find(rest, seq!['\n'], rel);
                assert(lines_of(rest) == seq![strip_cr(rest.subrange(0, rel))] + lines_of(
                    rest.skip(rel + 1),
                ));
                assert(rest.subrange(0, rel) =~= s@.subrange(start as int, j as int));
                assert(line@ =~= strip_cr(rest.subrange(0, rel))) by {
                    if j > start && s@[j - 1] == '\r' {
                        assert(rest.subrange(0, rel).last() == s@[j - 1]);
                        assert(strip_cr(rest.subrange(0, rel)) =~= s@.subrange(
                            start as int,
                            j - 1,
                        ));
                    } else {
                        if rel > 0 {
                            assert(rest.subrange(0, rel).last() == s@[j - 1]);
                        }
                    }
                }
                assert(rest.skip(rel + 1) =~= s@.skip(j + 1));
                assert(str_views(out@) =~= str_views(prev).push(line@));
                assert(str_views(out@) + lines_of(s@.skip(j + 1)) =~= str_views(prev) + (seq![
                    strip_cr(rest.subrange(0, rel)),
                ] + lines_of(rest.skip(rel + 1))));
            }
            start = j + 1;
        }
    }
    proof {
        if start == slen {
            assert(s@.skip(slen as int) =~= Seq::<char>::empty());
            assert(str_views(out@) + Seq::<Seq<char>>::empty() =~= str_views(out@));
        }
    }
    out
}

/// Checks whether the literal entity `ent` stands at position `i` of `s`.
fn entity_at(s: &str, i: usize, slen: usize, ent: &str, elen: usize) -> (r: bool)
    requires
        slen == s@.len(),
        elen == ent@.len(),
        i < slen,
    ensures
        r == starts_with(s@.skip(i as int), ent@),
{
    if elen > slen - i {
        return false;
    }
    let m = match_at(s, ent, i, slen, elen);
    proof {
        lemma_occurs_skip(s@, ent@, i as int);
        if m {
            assert(occurs_at(s@.skip(i as int), ent@, 0));
            assert(s@.skip(i as int).subrange(0, elen as int) == ent@);
        }
        if starts_with(s@.skip(i as int), ent@) {
            assert(occurs_at(s@.skip(i as int), ent@, 0));
        }
    }
    m
}

} // verus!
