use vstd::prelude::*;

use crate::text::{
    contains, lemma_find_none, occurs_at, chars_of, find, find_from, find_from_exec, lemma_find_from, lemma_find_skip, push_all, push_range, replace_all,
    replace_all_exec, string_of,
};

verus! {

/// Characters at which the redacted part of a value ends: JSON punctuation or a line break.
pub open spec fn is_cut_char(c: char) -> bool {
    c == ',' || c == '}' || c == ']' || c == '\n'
}

/// The first position at or after `j` that holds a cut character.
pub open spec fn first_cut_from(t: Seq<char>, j: int) -> Option<int>
    decreases t.len() - j,
{
    if j < 0 || j >= t.len() {
        None
    } else if is_cut_char(t[j]) {
        Some(j)
    } else {
        first_cut_from(t, j + 1)
    }
}

/// The most characters, counted from the start of the key, that are redacted when no cut
/// character follows the key.
pub open spec fn redaction_char_cap() -> int {
    200
}

/// How many characters of `t` (which starts with a key) the redaction replaces: up to the
/// first cut character; without one, the whole rest, but at most 200 characters.
pub open spec fn cut_length(t: Seq<char>) -> int {
    match first_cut_from(t, 0) {
        Some(j) => j,
        None => if t.len() <= redaction_char_cap() {
            t.len() as int
        } else {
            redaction_char_cap()
        },
    }
}

/// A found cut position holds a cut character, and none comes before it.
pub proof fn lemma_first_cut_from(t: Seq<char>, j: int)
    requires
        0 <= j,
    ensures
        first_cut_from(t, j) matches Some(c) ==> j <= c < t.len() && is_cut_char(t[c]),
        first_cut_from(t, j) matches Some(c) ==> forall|m: int|
            j <= m < c ==> !is_cut_char(#[trigger] t[m]),
        first_cut_from(t, j) is None ==> forall|m: int|
            j <= m < t.len() ==> !is_cut_char(#[trigger] t[m]),
    decreases t.len() - j,
{
    if j < t.len() && !is_cut_char(t[j]) {
        lemma_first_cut_from(t, j + 1);
    }
}

/// A cut never reaches past the end of `t`, and it is not empty where `t` does not start
/// with a cut character.
pub proof fn lemma_cut_length_bound(t: Seq<char>)
    ensures
        0 <= cut_length(t) <= t.len(),
        t.len() > 0 && !is_cut_char(t[0]) ==> cut_length(t) > 0,
{
    lemma_first_cut_from(t, 0);
}

/// `=<redacted>`.
pub open spec fn redacted_suffix() -> Seq<char> {
    seq!['=', '<', 'r', 'e', 'd', 'a', 'c', 't', 'e', 'd', '>']
}

/// What stands in place of a redacted value: the key, then `=<redacted>`.
pub open spec fn marker(key: Seq<char>) -> Seq<char> {
    key + redacted_suffix()
}

/// One redaction pass for `key`: each occurrence of the key, from the left, together with
/// what follows it up to the cut, is replaced by the key's marker; the search goes on after
/// the replaced part. A key that starts with a cut character would give an empty cut; the
/// pass then leaves the text as it is (no sensitive key does).
pub open spec fn redact_key(s: Seq<char>, key: Seq<char>) -> Seq<char>
    decreases s.len(),
{
    match find(s, key) {
        None => s,
        Some(i) => {
            let t = s.skip(i);
            proof {
                lemma_find_from(s, key, 0);
                lemma_cut_length_bound(t);
            }
            let e = cut_length(t);
            if e <= 0 {
                s
            } else {
                s.take(i) + marker(key) + redact_key(t.skip(e), key)
            }
        },
    }
}

/// The sensitive keys, in the order in which they are redacted.
pub open spec fn sensitive_key(k: int) -> Seq<char> {
    if k == 0 {
        seq!['a', 'c', 'c', 'e', 's', 's', 'T', 'o', 'k', 'e', 'n']
    } else if k == 1 {
        seq!['r', 'e', 'f', 'r', 'e', 's', 'h', 'T', 'o', 'k', 'e', 'n']
    } else if k == 2 {
        seq!['a', 'p', 'i', 'K', 'e', 'y']
    } else if k == 3 {
        seq!['a', 'u', 't', 'h', 'U', 'r', 'l']
    } else {
        seq!['e', 'm', 'a', 'i', 'l']
    }
}

/// How many sensitive keys there are.
pub open spec fn sensitive_key_count() -> int {
    5
}

/// The redaction passes for the keys `k`, `k + 1`, ... applied in turn to `s`.
pub open spec fn redact_keys_from(s: Seq<char>, k: int) -> Seq<char>
    decreases sensitive_key_count() - k,
{
    if k < 0 || k >= sensitive_key_count() {
        s
    } else {
        redact_keys_from(redact_key(s, sensitive_key(k)), k + 1)
    }
}

/// All redaction passes applied to `s`.
pub open spec fn redact_keys(s: Seq<char>) -> Seq<char> {
    redact_keys_from(s, 0)
}

/// `<home>`.
pub open spec fn home_marker() -> Seq<char> {
    seq!['<', 'h', 'o', 'm', 'e', '>']
}

/// What a log line becomes: the key redaction, then, where the home directory is known and
/// not empty, each of its occurrences replaced by `<home>`.
pub open spec fn redacted(s: Seq<char>, home: Option<Seq<char>>) -> Seq<char> {
    let r = redact_keys(s);
    match home {
        Some(h) => if h.len() > 0 {
            replace_all(r, h, home_marker())
        } else {
            r
        },
        None => r,
    }
}

/// The view of an optional string.
pub open spec fn opt_str_view(o: Option<&str>) -> Option<Seq<char>> {
    match o {
        Some(s) => Some(s@),
        None => None,
    }
}

/// Whether `c` is a cut character.
pub fn is_cut_char_exec(c: char) -> (b: bool)
    ensures
        b == is_cut_char(c),
{
    c == ',' || c == '}' || c == ']' || c == '\n'
}

/// The cut length of the text that starts at position `i` of `s`.
pub fn cut_length_at(s: &Vec<char>, i: usize) -> (r: usize)
    requires
        i <= s.len(),
    ensures
        r == cut_length(s@.skip(i as int)),
{
    let ghost t = s@.skip(i as int);
    let mut j: usize = i;
    while j < s.len()
        invariant
            i <= j <= s.len(),
            t == s@.skip(i as int),
            first_cut_from(t, 0) == first_cut_from(t, j - i),
        decreases s.len() - j,
    {
        if is_cut_char_exec(s[j]) {
            assert(t[j - i] == s@[j as int]);
            return j - i;
        }
        assert(t[j - i] == s@[j as int]);
        j = j + 1;
    }
    assert(first_cut_from(t, 0) is None);
    let rest = s.len() - i;
    if rest <= 200 {
        rest
    } else {
        200
    }
}

/// One redaction pass for the non-empty `key` over `s`.
pub fn redact_key_exec(s: &Vec<char>, key: &Vec<char>) -> (r: Vec<char>)
    requires
        key.len() > 0,
    ensures
        r@ == redact_key(s@, key@),
{
    let suffix: Vec<char> = vec!['=', '<', 'r', 'e', 'd', 'a', 'c', 't', 'e', 'd', '>'];
    assert(suffix@ =~= redacted_suffix());
    let mut out: Vec<char> = Vec::new();
    let mut pos: usize = 0;
    assert(s@.skip(0) =~= s@);
    assert(out@ + redact_key(s@, key@) =~= redact_key(s@, key@));
    loop
        invariant
            key.len() > 0,
            suffix@ == redacted_suffix(),
            pos <= s.len(),
            redact_key(s@, key@) == out@ + redact_key(s@.skip(pos as int), key@),
        decreases s.len() - pos,
    {
        let ghost u = s@.skip(pos as int);
        proof {
            lemma_find_skip(s@, key@, pos as int, 0);
            lemma_find_from(s@, key@, pos as int);
        }
        match find_from_exec(s, key, pos) {
            None => {
                push_range(&mut out, s, pos, s.len());
                assert(u =~= s@.subrange(pos as int, s.len() as int));
                return out;
            },
            Some(i) => {
                let e = cut_length_at(s, i);
                assert(u.skip(i - pos) =~= s@.skip(i as int));
                proof {
                    lemma_cut_length_bound(s@.skip(i as int));
                }
                if e == 0 {
                    push_range(&mut out, s, pos, s.len());
                    assert(u =~= s@.subrange(pos as int, s.len() as int));
                    return out;
                }
                let ghost old_out = out@;
                push_range(&mut out, s, pos, i);
                push_all(&mut out, key);
                push_all(&mut out, &suffix);
                assert(u.take(i - pos) =~= s@.subrange(pos as int, i as int));
                assert(s@.skip(i as int).skip(e as int) =~= s@.skip(i + e));
                assert(out@ =~= old_out + (u.take(i - pos) + marker(key@)));
                let ghost piece = u.take(i - pos) + marker(key@);
                pos = i + e;
                proof {
                    let r = redact_key(s@.skip(pos as int), key@);
                    assert(old_out + (piece + r) =~= out@ + r);
                }
            },
        }
    }
}

/// The characters of sensitive key `k`.
pub fn sensitive_key_chars(k: usize) -> (v: Vec<char>)
    requires
        k < sensitive_key_count(),
    ensures
        v@ == sensitive_key(k as int),
        v.len() > 0,
{
    let v: Vec<char> = if k == 0 {
        vec!['a', 'c', 'c', 'e', 's', 's', 'T', 'o', 'k', 'e', 'n']
    } else if k == 1 {
        vec!['r', 'e', 'f', 'r', 'e', 's', 'h', 'T', 'o', 'k', 'e', 'n']
    } else if k == 2 {
        vec!['a', 'p', 'i', 'K', 'e', 'y']
    } else if k == 3 {
        vec!['a', 'u', 't', 'h', 'U', 'r', 'l']
    } else {
        vec!['e', 'm', 'a', 'i', 'l']
    };
    assert(v@ =~= sensitive_key(k as int));
    v
}

/// The log line `value` with every sensitive key's value replaced by `key=<redacted>` and,
/// where `home` is given and not empty, each occurrence of it by `<home>`.
pub fn redact(value: &str, home: Option<&str>) -> (out: String)
    ensures
        out@ == redacted(value@, opt_str_view(home)),
{
    let mut cur = chars_of(value);
    let mut k: usize = 0;
    assert(redact_keys(value@) == redact_keys_from(cur@, 0));
    while k < 5
        invariant
            k <= 5,
            redact_keys(value@) == redact_keys_from(cur@, k as int),
        decreases 5 - k,
    {
        let key = sensitive_key_chars(k);
        cur = redact_key_exec(&cur, &key);
        k = k + 1;
    }
    match home {
        Some(h) => {
            if !h.is_empty() {
                let pat = chars_of(h);
                let rep: Vec<char> = vec!['<', 'h', 'o', 'm', 'e', '>'];
                assert(rep@ =~= home_marker());
                let replaced = replace_all_exec(&cur, &pat, &rep);
                return string_of(&replaced);
            }
        },
        None => {},
    }
    string_of(&cur)
}

/// `b` agrees with `a` on their common length: `b` could start where `a` starts.
pub open spec fn agree(a: Seq<char>, b: Seq<char>) -> bool
    decreases a.len(),
{
    if a.len() == 0 || b.len() == 0 {
        true
    } else {
        a[0] == b[0] && agree(a.skip(1), b.skip(1))
    }
}

proof fn lemma_agree(a: Seq<char>, b: Seq<char>)
    ensures
        agree(a, b) <==> forall|j: int| 0 <= j < a.len() && j < b.len() ==> a[j] == b[j],
    decreases a.len(),
{
    if a.len() > 0 && b.len() > 0 {
        lemma_agree(a.skip(1), b.skip(1));
        if !agree(a, b) && a[0] == b[0] {
            let j = choose|j: int|
                0 <= j < a.skip(1).len() && j < b.skip(1).len() && a.skip(1)[j] != b.skip(1)[j];
            assert(a[j + 1] != b[j + 1]);
        }
        if agree(a, b) {
            assert forall|j: int| 0 <= j < a.len() && j < b.len() implies a[j] == b[j] by {
                if j > 0 {
                    assert(a.skip(1)[j - 1] == a[j]);
                    assert(b.skip(1)[j - 1] == b[j]);
                }
            }
        }
    }
}

/// Every occurrence of `key` in `o` is the start of the key's marker.
pub open spec fn all_marked(o: Seq<char>, key: Seq<char>) -> bool {
    forall|p: int| #[trigger] occurs_at(o, key, p) ==> occurs_at(o, marker(key), p)
}

/// The conditions under which a redaction pass leaves its key only in markers: the key is
/// not empty, holds no `=`, and cannot start inside `=<redacted>`.
pub open spec fn key_marks_cleanly(key: Seq<char>) -> bool {
    &&& key.len() > 0
    &&& !is_cut_char(key[0])
    &&& !key.contains('=')
    &&& forall|d: int|
        0 <= d < redacted_suffix().len() ==> !agree(#[trigger] redacted_suffix().skip(d), key)
}

proof fn lemma_no_occurrence(s: Seq<char>, key: Seq<char>, p: int)
    requires
        find(s, key) is None,
    ensures
        !occurs_at(s, key, p),
{
    lemma_find_none(s, key);
}

/// An occurrence inside a stretch on which two texts agree is an occurrence in both.
proof fn lemma_occurs_where_equal(o: Seq<char>, s: Seq<char>, pat: Seq<char>, p: int, n: int)
    requires
        0 <= p,
        p + pat.len() <= n,
        n <= o.len(),
        n <= s.len(),
        forall|j: int| 0 <= j < n ==> o[j] == s[j],
        occurs_at(o, pat, p),
    ensures
        occurs_at(s, pat, p),
{
    assert(s.subrange(p, p + pat.len()) =~= o.subrange(p, p + pat.len()));
}

/// Past a prefix, the occurrences in `pre + r` are those in `r`.
proof fn lemma_occurs_after(pre: Seq<char>, r: Seq<char>, pat: Seq<char>, p: int)
    requires
        p >= pre.len(),
    ensures
        occurs_at(pre + r, pat, p) <==> occurs_at(r, pat, p - pre.len()),
{
    let q = p - pre.len();
    if p + pat.len() <= pre.len() + r.len() {
        assert((pre + r).subrange(p, p + pat.len()) =~= r.subrange(q, q + pat.len()));
    }
}

/// A key that marks cleanly does not start inside its own marker.
proof fn lemma_not_inside_marker(o: Seq<char>, key: Seq<char>, i: int, p: int)
    requires
        key_marks_cleanly(key),
        0 <= i,
        i + marker(key).len() <= o.len(),
        o.subrange(i, i + marker(key).len()) == marker(key),
        i < p < i + marker(key).len(),
    ensures
        !occurs_at(o, key, p),
{
    let m = marker(key);
    if occurs_at(o, key, p) {
        let d = p - i;
        if d < key.len() {
            let j = key.len() - d;
            assert(o[p + j] == m[key.len() as int]);
            assert(m[key.len() as int] == '=');
            assert(o.subrange(p, p + key.len())[j] == key[j]);
            assert(key.contains('='));
        } else {
            let d2 = d - key.len();
            let sx = redacted_suffix();
            lemma_agree(sx.skip(d2), key);
            assert forall|j: int| 0 <= j < sx.skip(d2).len() && j < key.len() implies sx.skip(d2)[j] == key[j] by {
                assert(o[p + j] == m[d + j]);
                assert(o.subrange(p, p + key.len())[j] == key[j]);
            }
            assert(!agree(sx.skip(d2), key));
        }
    }
}

/// A redaction pass for a key that marks cleanly leaves that key only in markers.
pub proof fn lemma_pass_marks_key(s: Seq<char>, key: Seq<char>)
    requires
        key_marks_cleanly(key),
    ensures
        all_marked(redact_key(s, key), key),
    decreases s.len(),
{
    let o = redact_key(s, key);
    lemma_find_from(s, key, 0);
    match find(s, key) {
        None => {
            assert forall|p: int| #[trigger] occurs_at(o, key, p) implies occurs_at(
                o,
                marker(key),
                p,
            ) by {
                lemma_no_occurrence(s, key, p);
            }
        },
        Some(i) => {
            let t = s.skip(i);
            lemma_cut_length_bound(t);
            assert(t[0] == s.subrange(i, i + key.len())[0]);
            let e = cut_length(t);
            assert(e > 0);
            let rest = t.skip(e);
            assert(rest =~= s.skip(i + e));
            lemma_pass_marks_key(rest, key);
            let r = redact_key(rest, key);
            let m = marker(key);
            let pre = s.take(i) + m;
            assert(o == pre + r);
            assert forall|j: int| 0 <= j < i + key.len() implies o[j] == s[j] by {
                if j >= i {
                    assert(o[j] == m[j - i]);
                    assert(s.subrange(i, i + key.len())[j - i] == key[j - i]);
                }
            }
            assert(o.subrange(i, i + m.len()) =~= m);
            assert forall|p: int| #[trigger] occurs_at(o, key, p) implies occurs_at(o, m, p) by {
                if p < i {
                    lemma_occurs_where_equal(o, s, key, p, i + key.len());
                } else if p == i {
                } else if p < i + m.len() {
                    lemma_not_inside_marker(o, key, i, p);
                } else {
                    lemma_occurs_after(pre, r, key, p);
                    lemma_occurs_after(pre, r, m, p);
                }
            }
        },
    }
}

/// No character of `=<redacted>` from offset `d` on can begin key `k`'s text.
proof fn lemma_suffix_offset(k: int, d: int)
    requires
        0 <= k < sensitive_key_count(),
        0 <= d < redacted_suffix().len(),
    ensures
        !agree(redacted_suffix().skip(d), sensitive_key(k)),
{
    let key = sensitive_key(k);
    let sx = redacted_suffix();
    let a = sx.skip(d);
    reveal_with_fuel(agree, 4);
    assert(a[0] == sx[d]);
    if a.len() > 1 {
        assert(a.skip(1)[0] == sx[d + 1]);
    }
    if a.len() > 2 {
        assert(a.skip(1).skip(1)[0] == sx[d + 2]);
    }
    assert(key[0] == sensitive_key(k)[0]);
    assert(key.len() > 2);
    assert(key.skip(1)[0] == key[1]);
    assert(key.skip(1).skip(1)[0] == key[2]);
}

/// Each sensitive key marks cleanly.
pub proof fn lemma_sensitive_key_marks_cleanly(k: int)
    requires
        0 <= k < sensitive_key_count(),
    ensures
        key_marks_cleanly(sensitive_key(k)),
{
    let key = sensitive_key(k);
    assert forall|d: int| 0 <= d < redacted_suffix().len() implies !agree(
        #[trigger] redacted_suffix().skip(d),
        key,
    ) by {
        lemma_suffix_offset(k, d);
    }
    assert(!key.contains('='));
}

/// The conditions under which a pass for `b` keeps the markers of an earlier key `a`
/// intact: `b` cannot start inside `a`'s marker, `a` cannot start inside `b`'s marker, and
/// `b`'s marker cannot start inside `a`.
pub open spec fn pass_keeps_marks(a: Seq<char>, b: Seq<char>) -> bool {
    &&& forall|d: int| 1 <= d < marker(a).len() ==> !agree(#[trigger] marker(a).skip(d), b)
    &&& forall|d: int| 0 <= d < marker(b).len() ==> !agree(#[trigger] marker(b).skip(d), a)
    &&& forall|d: int| 1 <= d < a.len() ==> !agree(#[trigger] a.skip(d), marker(b))
}

/// Where `x` stands at `a` and `y` at `b` in the same text, with `b` inside `x`, `y`
/// agrees with the rest of `x` from `b` on.
proof fn lemma_overlap_agrees(o: Seq<char>, x: Seq<char>, a: int, y: Seq<char>, b: int)
    requires
        0 <= a <= b < a + x.len(),
        a + x.len() <= o.len(),
        b + y.len() <= o.len(),
        o.subrange(a, a + x.len()) == x,
        o.subrange(b, b + y.len()) == y,
    ensures
        agree(x.skip(b - a), y),
{
    lemma_agree(x.skip(b - a), y);
    assert forall|j: int| 0 <= j < x.skip(b - a).len() && j < y.len() implies x.skip(b - a)[j]
        == y[j] by {
        assert(o.subrange(a, a + x.len())[b - a + j] == o[b + j]);
        assert(o.subrange(b, b + y.len())[j] == o[b + j]);
    }
}

/// A pass for `b` keeps every marker of an earlier key `a`.
pub proof fn lemma_pass_keeps_marks(s: Seq<char>, a: Seq<char>, b: Seq<char>)
    requires
        key_marks_cleanly(b),
        a.len() > 0,
        pass_keeps_marks(a, b),
        all_marked(s, a),
    ensures
        all_marked(redact_key(s, b), a),
    decreases s.len(),
{
    let o = redact_key(s, b);
    lemma_find_from(s, b, 0);
    match find(s, b) {
        None => {},
        Some(i) => {
            let t = s.skip(i);
            lemma_cut_length_bound(t);
            assert(t[0] == s.subrange(i, i + b.len())[0]);
            let e = cut_length(t);
            assert(e > 0);
            let rest = t.skip(e);
            assert(rest =~= s.skip(i + e));
            let ma = marker(a);
            let mb = marker(b);
            assert forall|q: int| #[trigger] occurs_at(rest, a, q) implies occurs_at(rest, ma, q) by {
                let pre = s.take(i + e);
                assert(s =~= pre + rest);
                lemma_occurs_after(pre, rest, a, q + i + e);
                lemma_occurs_after(pre, rest, ma, q + i + e);
            }
            lemma_pass_keeps_marks(rest, a, b);
            let r = redact_key(rest, b);
            let pre = s.take(i) + mb;
            assert(o == pre + r);
            let n = i + b.len();
            assert forall|j: int| 0 <= j < n implies o[j] == s[j] by {
                if j >= i {
                    assert(o[j] == mb[j - i]);
                    assert(s.subrange(i, i + b.len())[j - i] == b[j - i]);
                }
            }
            assert(o.subrange(i, i + mb.len()) =~= mb);
            assert forall|p: int| #[trigger] occurs_at(o, a, p) implies occurs_at(o, ma, p) by {
                if p < i && p + a.len() <= n {
                    lemma_occurs_where_equal(o, s, a, p, n);
                    assert(occurs_at(s, ma, p));
                    if p + ma.len() <= n {
                        lemma_occurs_where_equal(s, o, ma, p, n);
                    } else {
                        lemma_overlap_agrees(s, ma, p, b, i);
                    }
                } else if p < i {
                    lemma_overlap_agrees(o, a, p, mb, i);
                } else if p < i + mb.len() {
                    lemma_overlap_agrees(o, mb, i, a, p);
                } else {
                    lemma_occurs_after(pre, r, a, p);
                    lemma_occurs_after(pre, r, ma, p);
                }
            }
        },
    }
}

/// The markers of the sensitive keys survive the passes for the keys after them.
#[verifier::spinoff_prover]
proof fn lemma_sensitive_pair(ka: int, kb: int)
    requires
        0 <= ka < kb < sensitive_key_count(),
    ensures
        pass_keeps_marks(sensitive_key(ka), sensitive_key(kb)),
{
    let a = sensitive_key(ka);
    let b = sensitive_key(kb);
    reveal_with_fuel(agree, 4);
    assert forall|d: int| 1 <= d < marker(a).len() implies !agree(#[trigger] marker(a).skip(d), b) by {
        let x = marker(a).skip(d);
        assert(x[0] == marker(a)[d]);
        if x.len() > 1 {
            assert(x.skip(1)[0] == marker(a)[d + 1]);
        }
        if x.len() > 2 {
            assert(x.skip(1).skip(1)[0] == marker(a)[d + 2]);
        }
        assert(b.skip(1)[0] == b[1]);
        assert(b.skip(1).skip(1)[0] == b[2]);
    }
    assert forall|d: int| 0 <= d < marker(b).len() implies !agree(#[trigger] marker(b).skip(d), a) by {
        let x = marker(b).skip(d);
        assert(x[0] == marker(b)[d]);
        if x.len() > 1 {
            assert(x.skip(1)[0] == marker(b)[d + 1]);
        }
        if x.len() > 2 {
            assert(x.skip(1).skip(1)[0] == marker(b)[d + 2]);
        }
        assert(a.skip(1)[0] == a[1]);
        assert(a.skip(1).skip(1)[0] == a[2]);
    }
    assert forall|d: int| 1 <= d < a.len() implies !agree(#[trigger] a.skip(d), marker(b)) by {
        let x = a.skip(d);
        assert(x[0] == a[d]);
        if x.len() > 1 {
            assert(x.skip(1)[0] == a[d + 1]);
        }
        if x.len() > 2 {
            assert(x.skip(1).skip(1)[0] == a[d + 2]);
        }
        assert(marker(b)[0] == b[0]);
        assert(marker(b).skip(1)[0] == b[1]);
        assert(marker(b).skip(1).skip(1)[0] == b[2]);
    }
}

proof fn lemma_keys_from_mark(s: Seq<char>, k: int)
    requires
        0 <= k <= sensitive_key_count(),
        forall|m: int| 0 <= m < k ==> all_marked(s, #[trigger] sensitive_key(m)),
    ensures
        forall|m: int|
            0 <= m < sensitive_key_count() ==> all_marked(
                redact_keys_from(s, k),
                #[trigger] sensitive_key(m),
            ),
    decreases sensitive_key_count() - k,
{
    if k < sensitive_key_count() {
        let b = sensitive_key(k);
        lemma_sensitive_key_marks_cleanly(k);
        let r = redact_key(s, b);
        lemma_pass_marks_key(s, b);
        assert forall|m: int| 0 <= m < k + 1 implies all_marked(r, #[trigger] sensitive_key(m)) by {
            if m < k {
                lemma_sensitive_pair(m, k);
                lemma_sensitive_key_marks_cleanly(m);
                lemma_pass_keeps_marks(s, sensitive_key(m), b);
            }
        }
        lemma_keys_from_mark(r, k + 1);
    } else {
        assert forall|m: int| 0 <= m < sensitive_key_count() implies all_marked(
            redact_keys_from(s, k),
            #[trigger] sensitive_key(m),
        ) by {
            assert(m < k);
        }
    }
}

/// Law: after the key redaction, every occurrence of a sensitive key in the text is the
/// start of its marker `key=<redacted>`: no key is left followed by its value.
pub proof fn law_every_sensitive_key_is_redacted(s: Seq<char>, k: int)
    requires
        0 <= k < sensitive_key_count(),
    ensures
        all_marked(redact_keys(s), sensitive_key(k)),
{
    lemma_keys_from_mark(s, 0);
}

/// `replace_all` leaves a text without the pattern unchanged.
proof fn lemma_replace_all_absent(s: Seq<char>, pat: Seq<char>, rep: Seq<char>)
    requires
        !contains(s, pat),
    ensures
        replace_all(s, pat, rep) == s,
    decreases s.len(),
{
    if s.len() > 0 {
        assert(!occurs_at(s, pat, 0));
        let t = s.skip(1);
        assert forall|j: int| !occurs_at(t, pat, j) by {
            if occurs_at(t, pat, j) {
                assert(s.subrange(j + 1, j + 1 + pat.len()) =~= t.subrange(j, j + pat.len()));
                assert(occurs_at(s, pat, j + 1));
            }
        }
        lemma_replace_all_absent(t, pat, rep);
        assert(seq![s[0]] + t =~= s);
    }
}

proof fn lemma_keys_from_identity(s: Seq<char>, k: int)
    requires
        0 <= k <= sensitive_key_count(),
        forall|m: int| 0 <= m < sensitive_key_count() ==> !contains(s, #[trigger] sensitive_key(m)),
    ensures
        redact_keys_from(s, k) == s,
    decreases sensitive_key_count() - k,
{
    if k < sensitive_key_count() {
        lemma_find_none(s, sensitive_key(k));
        lemma_keys_from_identity(s, k + 1);
    }
}

/// Law: a line holding no sensitive key (and not the home directory) comes out unchanged.
pub proof fn law_clean_text_unchanged(s: Seq<char>, home: Option<Seq<char>>)
    requires
        forall|m: int| 0 <= m < sensitive_key_count() ==> !contains(s, #[trigger] sensitive_key(m)),
        home matches Some(h) ==> !contains(s, h),
    ensures
        redacted(s, home) == s,
{
    lemma_keys_from_identity(s, 0);
    match home {
        Some(h) => {
            if h.len() > 0 {
                lemma_replace_all_absent(s, h, home_marker());
            }
        },
        None => {},
    }
}

/// A home directory that the `<home>` marker cannot produce again: it holds neither `<`
/// nor `>` and is not part of `home`.
pub open spec fn home_replaces_cleanly(h: Seq<char>) -> bool {
    &&& h.len() > 0
    &&& !h.contains('<')
    &&& !h.contains('>')
    &&& !contains(seq!['h', 'o', 'm', 'e'], h)
}

/// Until its first replacement, `replace_all` copies its input: each prefix of the output
/// either is the same prefix of the input or holds the `<` that starts a marker.
proof fn lemma_replace_all_prefix(t: Seq<char>, h: Seq<char>, j: int)
    requires
        h.len() > 0,
        0 <= j <= replace_all(t, h, home_marker()).len(),
    ensures
        (j <= t.len() && replace_all(t, h, home_marker()).take(j) == t.take(j)) || replace_all(
            t,
            h,
            home_marker(),
        ).take(j).contains('<'),
    decreases t.len(),
{
    let r = replace_all(t, h, home_marker());
    if j == 0 {
        assert(r.take(0) =~= t.take(0));
    } else if t.len() == 0 {
    } else if occurs_at(t, h, 0) {
        assert(r.take(j)[0] == '<');
    } else {
        let t1 = t.skip(1);
        let r1 = replace_all(t1, h, home_marker());
        assert(r == seq![t[0]] + r1);
        lemma_replace_all_prefix(t1, h, j - 1);
        if j - 1 <= t1.len() && r1.take(j - 1) == t1.take(j - 1) {
            assert forall|i: int| 0 <= i < j implies r.take(j)[i] == t.take(j)[i] by {
                if i > 0 {
                    assert(r1.take(j - 1)[i - 1] == t1.take(j - 1)[i - 1]);
                }
            }
            assert(r.take(j) =~= t.take(j));
        } else {
            let k = choose|k: int| 0 <= k < r1.take(j - 1).len() && #[trigger] r1.take(j - 1)[k] == '<';
            assert(r.take(j)[k + 1] == '<');
        }
    }
}

/// With a home directory that replaces cleanly, no occurrence of it is left.
proof fn lemma_replace_all_removes(s: Seq<char>, h: Seq<char>)
    requires
        home_replaces_cleanly(h),
    ensures
        !contains(replace_all(s, h, home_marker()), h),
    decreases s.len(),
{
    let rep = home_marker();
    let o = replace_all(s, h, rep);
    if s.len() == 0 {
    } else if occurs_at(s, h, 0) {
        let t = s.skip(h.len() as int);
        lemma_replace_all_removes(t, h);
        let r = replace_all(t, h, rep);
        assert(o == rep + r);
        assert forall|p: int| !occurs_at(o, h, p) by {
            if occurs_at(o, h, p) {
                if p >= rep.len() {
                    assert(r.subrange(p - 6, p - 6 + h.len()) =~= o.subrange(p, p + h.len()));
                    assert(occurs_at(r, h, p - 6));
                } else if p == 0 {
                    assert(h[0] == o[0]);
                    assert(o.subrange(p, p + h.len())[0] == h[0]);
                } else if p + h.len() <= 5 {
                    assert(seq!['h', 'o', 'm', 'e'].subrange(p - 1, p - 1 + h.len()) =~= o.subrange(
                        p,
                        p + h.len(),
                    ));
                    assert(occurs_at(seq!['h', 'o', 'm', 'e'], h, p - 1));
                } else {
                    assert(o[5] == '>');
                    assert(o.subrange(p, p + h.len())[5 - p] == h[5 - p]);
                }
            }
        }
    } else {
        let t = s.skip(1);
        lemma_replace_all_removes(t, h);
        let r = replace_all(t, h, rep);
        assert(o == seq![s[0]] + r);
        assert forall|p: int| !occurs_at(o, h, p) by {
            if occurs_at(o, h, p) {
                if p >= 1 {
                    assert(r.subrange(p - 1, p - 1 + h.len()) =~= o.subrange(p, p + h.len()));
                    assert(occurs_at(r, h, p - 1));
                } else {
                    lemma_replace_all_prefix(t, h, h.len() - 1);
                    if h.len() - 1 <= t.len() && r.take(h.len() - 1) == t.take(h.len() - 1) {
                        assert forall|i: int| 0 <= i < h.len() implies s[i] == o[i] by {
                            if i > 0 {
                                assert(r.take(h.len() - 1)[i - 1] == t.take(h.len() - 1)[i - 1]);
                            }
                        }
                        assert(s.subrange(0, h.len() as int) =~= o.subrange(0, h.len() as int));
                        assert(occurs_at(s, h, 0));
                    } else {
                        let k = choose|k: int|
                            0 <= k < r.take(h.len() - 1).len() && #[trigger] r.take(h.len() - 1)[k] == '<';
                        assert(o.subrange(0, h.len() as int)[k + 1] == '<');
                        assert(h[k + 1] == '<');
                    }
                }
            }
        }
    }
}

/// Law: where the home directory is given and holds neither `<` nor `>` nor is part of
/// `home`, it does not occur in the redacted line.
pub proof fn law_home_directory_removed(s: Seq<char>, h: Seq<char>)
    requires
        home_replaces_cleanly(h),
    ensures
        !contains(redacted(s, Some(h)), h),
{
    lemma_replace_all_removes(redact_keys(s), h);
}

} // verus!
