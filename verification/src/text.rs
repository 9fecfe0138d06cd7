use vstd::prelude::*;

verus! {

// ── Conversions between strings and character vectors ─────────────────

/// Copies the characters of a string slice into a vector.
pub fn to_chars(s: &str) -> (res: Vec<char>)
    ensures
        res@ == s@,
{
    let mut res: Vec<char> = Vec::new();
    for c in it: s.chars()
        invariant
            res@ == it.seq().take(it.index() as int),
    {
        res.push(c);
    }
    proof {
        broadcast use vstd::string::group_string_axioms;
    }
    res
}

/// Collects a vector of characters into a `String` (std's `FromIterator<&char>`
/// for `String`, which appends every character in order).
#[verifier::external_body]
pub(crate) fn from_chars(v: &Vec<char>) -> (res: String)
    ensures
        res@ == v@,
{
    v.iter().collect()
}

// ── Substring search ───────────────────────────────────────────────────

/// `pat` occurs in `s` starting at position `i`.
pub open spec fn matches_at(s: Seq<char>, pat: Seq<char>, i: int) -> bool {
    0 <= i && i + pat.len() <= s.len() && s.subrange(i, i + pat.len()) == pat
}

/// The leftmost position at or after `from` where `pat` occurs in `s`.
pub open spec fn find_from(s: Seq<char>, pat: Seq<char>, from: int) -> Option<int>
    decreases s.len() + 1 - from,
{
    if from < 0 || from + pat.len() > s.len() {
        None
    } else if matches_at(s, pat, from) {
        Some(from)
    } else {
        find_from(s, pat, from + 1)
    }
}

/// The leftmost position where `pat` occurs in `s` (std's `str::find`, counted in characters).
pub open spec fn find(s: Seq<char>, pat: Seq<char>) -> Option<int> {
    find_from(s, pat, 0)
}

/// `s` contains `pat` (std's `str::contains`).
pub open spec fn contains(s: Seq<char>, pat: Seq<char>) -> bool {
    find(s, pat) is Some
}

/// `s` begins with `p` (std's `str::starts_with`).
pub open spec fn starts_with(s: Seq<char>, p: Seq<char>) -> bool {
    p.len() <= s.len() && s.take(p.len() as int) == p
}

/// What `find_from` returns lies at or after `from`, is a match, and no earlier match exists.
pub proof fn lemma_find_from(s: Seq<char>, pat: Seq<char>, from: int)
    requires
        0 <= from,
    ensures
        find_from(s, pat, from) matches Some(i) ==> from <= i && matches_at(s, pat, i) && forall|
            j: int,
        | from <= j < i ==> !matches_at(s, pat, j),
        find_from(s, pat, from) is None ==> forall|j: int| from <= j ==> !matches_at(s, pat, j),
    decreases s.len() + 1 - from,
{
    if from + pat.len() > s.len() {
    } else if matches_at(s, pat, from) {
    } else {
        lemma_find_from(s, pat, from + 1);
    }
}

/// The first match at or after `from` is what `find_from` finds.
pub proof fn lemma_find_from_first(s: Seq<char>, pat: Seq<char>, from: int, at: int)
    requires
        0 <= from <= at,
        matches_at(s, pat, at),
        forall|j: int| from <= j < at ==> !matches_at(s, pat, j),
    ensures
        find_from(s, pat, from) == Some(at),
    decreases at - from,
{
    if from < at {
        lemma_find_from_first(s, pat, from + 1, at);
    }
}

/// Tests whether `pat` occurs in `s` at position `i`.
pub fn matches_at_exec(s: &Vec<char>, pat: &Vec<char>, i: usize) -> (res: bool)
    ensures
        res == matches_at(s@, pat@, i as int),
{
    if i > s.len() || pat.len() > s.len() - i {
        return false;
    }
    let mut k: usize = 0;
    while k < pat.len()
        invariant
            i + pat.len() <= s.len(),
            k <= pat.len(),
            forall|j: int| 0 <= j < k ==> s@[i + j] == pat@[j],
        decreases pat.len() - k,
    {
        if s[i + k] != pat[k] {
            assert(s@.subrange(i as int, i + pat.len())[k as int] != pat@[k as int]);
            return false;
        }
        k = k + 1;
    }
    assert(s@.subrange(i as int, i + pat.len()) =~= pat@);
    true
}

/// The leftmost position at or after `from` where `pat` occurs in `s`.
pub fn find_from_exec(s: &Vec<char>, pat: &Vec<char>, from: usize) -> (res: Option<usize>)
    ensures
        res matches Some(i) ==> find_from(s@, pat@, from as int) == Some(i as int),
        res is None ==> find_from(s@, pat@, from as int) is None,
{
    let mut i = from;
    while i <= s.len() && pat.len() <= s.len() - i
        invariant
            from <= i,
            find_from(s@, pat@, from as int) == find_from(s@, pat@, i as int),
        decreases s.len() + 1 - i,
    {
        if matches_at_exec(s, pat, i) {
            return Some(i);
        }
        assert(i < s.len()) by {
            if i == s.len() {
                assert(s@.subrange(i as int, i as int) =~= pat@);
            }
        }
        i = i + 1;
    }
    None
}

/// Tests whether `pat` occurs anywhere in `s`.
pub fn contains_exec(s: &Vec<char>, pat: &Vec<char>) -> (res: bool)
    ensures
        res == contains(s@, pat@),
{
    find_from_exec(s, pat, 0).is_some()
}

/// Tests whether `s` begins with `p`.
pub fn starts_with_exec(s: &Vec<char>, p: &Vec<char>) -> (res: bool)
    ensures
        res == starts_with(s@, p@),
{
    let r = matches_at_exec(s, p, 0);
    proof {
        if p@.len() <= s@.len() {
            assert(s@.subrange(0, p@.len() as int) =~= s@.take(p@.len() as int));
        }
    }
    r
}

// ── Replacement ───────────────────────────────────────────────────────

/// Every non-overlapping occurrence of `pat` in `s`, scanned from the left, replaced by
/// `rep` (std's `str::replace` for a non-empty pattern).
pub open spec fn replaced(s: Seq<char>, pat: Seq<char>, rep: Seq<char>) -> Seq<char>
    decreases s.len(),
{
    if pat.len() == 0 || s.len() < pat.len() {
        s
    } else if s.take(pat.len() as int) == pat {
        rep + replaced(s.skip(pat.len() as int), pat, rep)
    } else {
        seq![s[0]] + replaced(s.skip(1), pat, rep)
    }
}

/// Replacing by something no longer than the pattern never lengthens a text.
pub proof fn lemma_replaced_no_longer(s: Seq<char>, pat: Seq<char>, rep: Seq<char>)
    requires
        rep.len() <= pat.len(),
    ensures
        replaced(s, pat, rep).len() <= s.len(),
    decreases s.len(),
{
    if pat.len() == 0 || s.len() < pat.len() {
    } else if s.take(pat.len() as int) == pat {
        lemma_replaced_no_longer(s.skip(pat.len() as int), pat, rep);
    } else {
        lemma_replaced_no_longer(s.skip(1), pat, rep);
    }
}

/// Replaces every non-overlapping occurrence of `pat` in `s`, from the left, by `rep`.
pub fn replace_all(s: &Vec<char>, pat: &Vec<char>, rep: &Vec<char>) -> (res: Vec<char>)
    requires
        pat@.len() > 0,
    ensures
        res@ == replaced(s@, pat@, rep@),
{
    let mut out: Vec<char> = Vec::new();
    let mut i: usize = 0;
    assert(s@.skip(0) =~= s@);
    assert(out@ + replaced(s@, pat@, rep@) =~= replaced(s@, pat@, rep@));
    while i < s.len()
        invariant
            i <= s.len(),
            pat@.len() > 0,
            out@ + replaced(s@.skip(i as int), pat@, rep@) == replaced(s@, pat@, rep@),
        decreases s.len() - i,
    {
        let ghost rest = s@.skip(i as int);
        if matches_at_exec(s, pat, i) {
            proof {
                assert(rest.take(pat@.len() as int) =~= s@.subrange(i as int, i + pat@.len()));
                assert(rest.skip(pat@.len() as int) =~= s@.skip(i + pat@.len()));
            }
            let mut k: usize = 0;
            let ghost out0 = out@;
            while k < rep.len()
                invariant
                    k <= rep.len(),
                    out@ == out0 + rep@.take(k as int),
                decreases rep.len() - k,
            {
                out.push(rep[k]);
                k = k + 1;
                proof {
                    assert(rep@.take(k as int) =~= rep@.take(k - 1) + seq![rep@[k - 1]]);
                }
            }
            proof {
                assert(rep@.take(rep@.len() as int) =~= rep@);
                assert(out@ + replaced(s@.skip(i + pat@.len()), pat@, rep@) =~= out0 + replaced(
                    rest,
                    pat@,
                    rep@,
                ));
            }
            i = i + pat.len();
        } else {
            proof {
                if rest.len() >= pat@.len() {
                    assert(rest.take(pat@.len() as int) =~= s@.subrange(i as int, i + pat@.len()));
                }
                assert(rest.skip(1) =~= s@.skip(i + 1));
                assert(rest[0] == s@[i as int]);
                if rest.len() < pat@.len() {
                    assert(s@.skip(i + 1).len() < pat@.len());
                    assert(replaced(rest, pat@, rep@) == rest);
                    assert(replaced(s@.skip(i + 1), pat@, rep@) == s@.skip(i + 1));
                    assert(rest =~= seq![rest[0]] + s@.skip(i + 1));
                }
            }
            let ghost out0 = out@;
            out.push(s[i]);
            proof {
                assert(out@ + replaced(s@.skip(i + 1), pat@, rep@) =~= out0 + (seq![s@[i as int]]
                    + replaced(s@.skip(i + 1), pat@, rep@)));
            }
            i = i + 1;
        }
    }
    proof {
        assert(s@.skip(i as int) =~= Seq::<char>::empty());
        assert(out@ + Seq::<char>::empty() =~= out@);
    }
    out
}

/// Appends the characters of `s` to `out`.
pub fn push_str(out: &mut Vec<char>, s: &str)
    ensures
        final(out)@ == old(out)@ + s@,
{
    let v = to_chars(s);
    push_all(out, &v);
}

/// Appends the characters of `v` to `out`.
pub fn push_all(out: &mut Vec<char>, v: &Vec<char>)
    ensures
        final(out)@ == old(out)@ + v@,
{
    let ghost out0 = out@;
    let mut k: usize = 0;
    while k < v.len()
        invariant
            k <= v.len(),
            out@ == out0 + v@.take(k as int),
        decreases v.len() - k,
    {
        out.push(v[k]);
        k = k + 1;
        proof {
            assert(v@.take(k as int) =~= v@.take(k - 1) + seq![v@[k - 1]]);
        }
    }
    assert(v@.take(v@.len() as int) =~= v@);
}

/// `s` with every non-overlapping occurrence of `pat` replaced by `rep` (std's `str::replace`).
pub fn replace_str(s: &str, pat: &str, rep: &str) -> (res: String)
    requires
        pat@.len() > 0,
    ensures
        res@ == replaced(s@, pat@, rep@),
{
    let sv = to_chars(s);
    let pv = to_chars(pat);
    let rv = to_chars(rep);
    let out = replace_all(&sv, &pv, &rv);
    from_chars(&out)
}

// ── Markup escaping ────────────────────────────────────────────────────

/// The markup escape of one character.
pub open spec fn escape_char(c: char) -> Seq<char> {
    if c == '&' {
        "&amp;"@
    } else if c == '<' {
        "&lt;"@
    } else if c == '>' {
        "&gt;"@
    } else if c == '"' {
        "&quot;"@
    } else if c == '\'' {
        "&apos;"@
    } else {
        seq![c]
    }
}

/// Every character of `s` replaced by its markup escape.
pub open spec fn html_escaped(s: Seq<char>) -> Seq<char>
    decreases s.len(),
{
    if s.len() == 0 {
        Seq::empty()
    } else {
        html_escaped(s.drop_last()) + escape_char(s.last())
    }
}

/// Escapes `&`, `<`, `>`, `"` and `'` as XML character entities.
pub fn html_escape(s: &str) -> (res: String)
    ensures
        res@ == html_escaped(s@),
{
    let v = to_chars(s);
    let mut out: Vec<char> = Vec::new();
    let mut i: usize = 0;
    while i < v.len()
        invariant
            i <= v.len(),
            out@ == html_escaped(v@.take(i as int)),
        decreases v.len() - i,
    {
        let c = v[i];
        if c == '&' {
            push_str(&mut out, "&amp;");
        } else if c == '<' {
            push_str(&mut out, "&lt;");
        } else if c == '>' {
            push_str(&mut out, "&gt;");
        } else if c == '"' {
            push_str(&mut out, "&quot;");
        } else if c == '\'' {
            push_str(&mut out, "&apos;");
        } else {
            out.push(c);
        }
        proof {
            assert(v@.take(i + 1).drop_last() =~= v@.take(i as int));
        }
        i = i + 1;
    }
    assert(v@.take(v@.len() as int) =~= v@);
    from_chars(&out)
}

// ── Undoing the markup escape ──────────────────────────────────────────

/// The place of an escaped character in the order in which entities are decoded
/// (`<`, `>`, `"`, `'`, then `&`); 0 for a character that is not escaped.
pub open spec fn entity_rank(c: char) -> int {
    if c == '<' {
        1
    } else if c == '>' {
        2
    } else if c == '"' {
        3
    } else if c == '\'' {
        4
    } else if c == '&' {
        5
    } else {
        0
    }
}

/// One character of an escaped text once the first `k` entities have been decoded.
pub open spec fn partly_decoded_char(c: char, k: int) -> Seq<char> {
    if entity_rank(c) == 0 || entity_rank(c) <= k {
        seq![c]
    } else {
        escape_char(c)
    }
}

/// An escaped text once the first `k` entities have been decoded.
pub open spec fn partly_decoded(s: Seq<char>, k: int) -> Seq<char>
    decreases s.len(),
{
    if s.len() == 0 {
        Seq::empty()
    } else {
        partly_decoded_char(s[0], k) + partly_decoded(s.skip(1), k)
    }
}

proof fn lemma_partly_decoded_push(s: Seq<char>, c: char, k: int)
    ensures
        partly_decoded(s.push(c), k) == partly_decoded(s, k) + partly_decoded_char(c, k),
    decreases s.len(),
{
    if s.len() == 0 {
        assert(s.push(c).skip(1) =~= Seq::<char>::empty());
        assert(s.push(c)[0] == c);
        assert(partly_decoded(Seq::<char>::empty(), k) == Seq::<char>::empty());
        assert(partly_decoded(s.push(c), k) =~= partly_decoded_char(c, k));
    } else {
        assert(s.push(c).skip(1) =~= s.skip(1).push(c));
        lemma_partly_decoded_push(s.skip(1), c, k);
        assert(partly_decoded(s.push(c), k) =~= partly_decoded(s, k) + partly_decoded_char(c, k));
    }
}

proof fn lemma_escaped_is_undecoded(s: Seq<char>)
    ensures
        html_escaped(s) == partly_decoded(s, 0),
    decreases s.len(),
{
    if s.len() > 0 {
        lemma_escaped_is_undecoded(s.drop_last());
        lemma_partly_decoded_push(s.drop_last(), s.last(), 0);
        assert(s.drop_last().push(s.last()) =~= s);
    }
}

proof fn lemma_fully_decoded(s: Seq<char>)
    ensures
        partly_decoded(s, 5) == s,
    decreases s.len(),
{
    if s.len() > 0 {
        lemma_fully_decoded(s.skip(1));
        assert(seq![s[0]] + s.skip(1) =~= s);
    }
}

proof fn lemma_replaced_plain(t: Seq<char>, rest: Seq<char>, pat: Seq<char>, rep: Seq<char>)
    requires
        pat.len() > 0,
        pat[0] == '&',
        forall|i: int| 0 <= i < t.len() ==> t[i] != '&',
    ensures
        replaced(t + rest, pat, rep) == t + replaced(rest, pat, rep),
    decreases t.len(),
{
    if t.len() > 0 {
        let tr = t + rest;
        if tr.len() < pat.len() {
            assert(replaced(rest, pat, rep) == rest);
        } else {
            assert(tr.take(pat.len() as int)[0] != pat[0]);
            assert(tr.skip(1) =~= t.skip(1) + rest);
            lemma_replaced_plain(t.skip(1), rest, pat, rep);
            assert(seq![t[0]] + t.skip(1) =~= t);
            assert(replaced(tr, pat, rep) =~= t + replaced(rest, pat, rep));
        }
    } else {
        assert(t + rest =~= rest);
    }
}

proof fn lemma_replaced_other_entity(b: Seq<char>, rest: Seq<char>, pat: Seq<char>, rep: Seq<char>, j: int)
    requires
        pat.len() > 0,
        pat[0] == '&',
        b.len() > 0,
        forall|i: int| 1 <= i < b.len() ==> b[i] != '&',
        0 <= j < b.len(),
        j < pat.len(),
        b[j] != pat[j],
    ensures
        replaced(b + rest, pat, rep) == b + replaced(rest, pat, rep),
{
    let br = b + rest;
    if br.len() < pat.len() {
        assert(replaced(rest, pat, rep) == rest);
    } else {
        assert(br.take(pat.len() as int)[j] != pat[j]);
        assert(br.skip(1) =~= b.skip(1) + rest);
        lemma_replaced_plain(b.skip(1), rest, pat, rep);
        assert(seq![b[0]] + b.skip(1) =~= b);
        assert(replaced(br, pat, rep) =~= b + replaced(rest, pat, rep));
    }
}

proof fn lemma_replaced_entity(rest: Seq<char>, pat: Seq<char>, rep: Seq<char>)
    requires
        pat.len() > 0,
    ensures
        replaced(pat + rest, pat, rep) == rep + replaced(rest, pat, rep),
{
    let pr = pat + rest;
    assert(pr.take(pat.len() as int) =~= pat);
    assert(pr.skip(pat.len() as int) =~= rest);
}

/// The character whose entity is decoded `k`-th.
pub open spec fn ranked_char(k: int) -> char {
    if k == 1 {
        '<'
    } else if k == 2 {
        '>'
    } else if k == 3 {
        '"'
    } else if k == 4 {
        '\''
    } else {
        '&'
    }
}

/// Decoding the `k`-th entity takes an escaped text from `k - 1` decoded entities to `k`.
pub proof fn lemma_decode_step(s: Seq<char>, k: int)
    requires
        1 <= k <= 5,
    ensures
        replaced(partly_decoded(s, k - 1), escape_char(ranked_char(k)), seq![ranked_char(k)])
            == partly_decoded(s, k),
    decreases s.len(),
{
    reveal_strlit("&amp;");
    reveal_strlit("&lt;");
    reveal_strlit("&gt;");
    reveal_strlit("&quot;");
    reveal_strlit("&apos;");
    let pat = escape_char(ranked_char(k));
    let rep = seq![ranked_char(k)];
    if s.len() > 0 {
        lemma_decode_step(s.skip(1), k);
        let c = s[0];
        let rest = partly_decoded(s.skip(1), k - 1);
        let b = partly_decoded_char(c, k - 1);
        assert(partly_decoded(s, k - 1) == b + rest);
        if entity_rank(c) == k {
            lemma_replaced_entity(rest, pat, rep);
        } else if entity_rank(c) == 0 || entity_rank(c) < k {
            lemma_replaced_plain(b, rest, pat, rep);
        } else {
            let j: int = if k == 4 { 2 } else { 1 };
            lemma_replaced_other_entity(b, rest, pat, rep, j);
        }
    }
}

/// Decoding the five entities in turn undoes the markup escape.
pub proof fn lemma_decode_undoes_escape(s: Seq<char>)
    ensures
        replaced(replaced(replaced(replaced(replaced(html_escaped(s), "&lt;"@, "<"@), "&gt;"@, ">"@),
            "&quot;"@, "\""@), "&apos;"@, "'"@), "&amp;"@, "&"@) == s,
{
    reveal_strlit("<");
    reveal_strlit(">");
    reveal_strlit("\"");
    reveal_strlit("'");
    reveal_strlit("&");
    lemma_escaped_is_undecoded(s);
    lemma_decode_step(s, 1);
    lemma_decode_step(s, 2);
    lemma_decode_step(s, 3);
    lemma_decode_step(s, 4);
    lemma_decode_step(s, 5);
    lemma_fully_decoded(s);
    assert("<"@ =~= seq!['<']);
    assert(">"@ =~= seq!['>']);
    assert("\""@ =~= seq!['"']);
    assert("'"@ =~= seq!['\'']);
    assert("&"@ =~= seq!['&']);
}

// ── Whitespace ─────────────────────────────────────────────────────────

/// Characters with the Unicode `White_Space` property (std's `char::is_whitespace`).
pub open spec fn is_whitespace(c: char) -> bool {
    let u = c as u32;
    (0x9 <= u <= 0xD) || u == 0x20 || u == 0x85 || u == 0xA0 || u == 0x1680 || (0x2000 <= u
        <= 0x200A) || u == 0x2028 || u == 0x2029 || u == 0x202F || u == 0x205F || u == 0x3000
}

/// Tests `is_whitespace`.
pub fn is_whitespace_exec(c: char) -> (res: bool)
    ensures
        res == is_whitespace(c),
{
    let u = c as u32;
    (0x9 <= u && u <= 0xD) || u == 0x20 || u == 0x85 || u == 0xA0 || u == 0x1680 || (0x2000 <= u
        && u <= 0x200A) || u == 0x2028 || u == 0x2029 || u == 0x202F || u == 0x205F || u == 0x3000
}

/// `s` without its leading whitespace (std's `str::trim_start`).
pub open spec fn trim_start(s: Seq<char>) -> Seq<char>
    decreases s.len(),
{
    if s.len() > 0 && is_whitespace(s[0]) {
        trim_start(s.skip(1))
    } else {
        s
    }
}

/// `s` without its trailing whitespace (std's `str::trim_end`).
pub open spec fn trim_end(s: Seq<char>) -> Seq<char>
    decreases s.len(),
{
    if s.len() > 0 && is_whitespace(s.last()) {
        trim_end(s.drop_last())
    } else {
        s
    }
}

/// `s` without leading and trailing whitespace (std's `str::trim`).
pub open spec fn trim(s: Seq<char>) -> Seq<char> {
    trim_end(trim_start(s))
}

/// The characters of `v` from `lo` to `hi`.
pub fn slice_chars(v: &Vec<char>, lo: usize, hi: usize) -> (res: Vec<char>)
    requires
        lo <= hi <= v@.len(),
    ensures
        res@ == v@.subrange(lo as int, hi as int),
{
    let mut out: Vec<char> = Vec::new();
    let mut k = lo;
    while k < hi
        invariant
            lo <= k <= hi <= v@.len(),
            out@ == v@.subrange(lo as int, k as int),
        decreases hi - k,
    {
        out.push(v[k]);
        k = k + 1;
        proof {
            assert(v@.subrange(lo as int, k as int) =~= v@.subrange(lo as int, k - 1) + seq![
                v@[k - 1],
            ]);
        }
    }
    out
}

/// Removes leading whitespace.
pub fn trim_start_chars(v: &Vec<char>) -> (res: Vec<char>)
    ensures
        res@ == trim_start(v@),
{
    let mut lo: usize = 0;
    assert(v@.skip(0) =~= v@);
    while lo < v.len() && is_whitespace_exec(v[lo])
        invariant
            lo <= v@.len(),
            trim_start(v@) == trim_start(v@.skip(lo as int)),
        decreases v.len() - lo,
    {
        proof {
            assert(v@.skip(lo as int).skip(1) =~= v@.skip(lo + 1));
        }
        lo = lo + 1;
    }
    proof {
        assert(trim_start(v@.skip(lo as int)) == v@.skip(lo as int));
        assert(v@.skip(lo as int) =~= v@.subrange(lo as int, v@.len() as int));
    }
    slice_chars(v, lo, v.len())
}

/// Removes leading and trailing whitespace.
pub fn trim_chars(v: &Vec<char>) -> (res: Vec<char>)
    ensures
        res@ == trim(v@),
{
    let mut lo: usize = 0;
    assert(v@.skip(0) =~= v@);
    while lo < v.len() && is_whitespace_exec(v[lo])
        invariant
            lo <= v@.len(),
            trim_start(v@) == trim_start(v@.skip(lo as int)),
        decreases v.len() - lo,
    {
        proof {
            assert(v@.skip(lo as int).skip(1) =~= v@.skip(lo + 1));
        }
        lo = lo + 1;
    }
    proof {
        assert(trim_start(v@.skip(lo as int)) == v@.skip(lo as int));
        assert(v@.skip(lo as int) =~= v@.subrange(lo as int, v@.len() as int));
    }
    let mut hi: usize = v.len();
    while hi > lo && is_whitespace_exec(v[hi - 1])
        invariant
            lo <= hi <= v@.len(),
            trim(v@) == trim_end(v@.subrange(lo as int, hi as int)),
        decreases hi,
    {
        proof {
            assert(v@.subrange(lo as int, hi as int).drop_last() =~= v@.subrange(
                lo as int,
                hi - 1,
            ));
        }
        hi = hi - 1;
    }
    slice_chars(v, lo, hi)
}

// ── Decimal formatting ─────────────────────────────────────────────────

/// The character of a decimal digit.
pub open spec fn digit_char(d: nat) -> char {
    if d == 0 {
        '0'
    } else if d == 1 {
        '1'
    } else if d == 2 {
        '2'
    } else if d == 3 {
        '3'
    } else if d == 4 {
        '4'
    } else if d == 5 {
        '5'
    } else if d == 6 {
        '6'
    } else if d == 7 {
        '7'
    } else if d == 8 {
        '8'
    } else {
        '9'
    }
}

/// The decimal notation of `n`, without leading zeros (std's `Display` for integers).
pub open spec fn decimal(n: nat) -> Seq<char>
    decreases n,
{
    if n < 10 {
        seq![digit_char(n)]
    } else {
        decimal(n / 10).push(digit_char(n % 10))
    }
}

/// The decimal notation of `n` padded with zeros to at least two digits (`{:02}`).
pub open spec fn decimal2(n: nat) -> Seq<char> {
    if n < 10 {
        seq!['0', digit_char(n)]
    } else {
        decimal(n)
    }
}

/// The decimal notation of a signed number (std's `Display` for signed integers).
pub open spec fn signed_decimal(n: int) -> Seq<char> {
    if n < 0 {
        seq!['-'] + decimal((-n) as nat)
    } else {
        decimal(n as nat)
    }
}

fn digit_char_exec(d: u64) -> (c: char)
    requires
        d < 10,
    ensures
        c == digit_char(d as nat),
{
    if d == 0 {
        '0'
    } else if d == 1 {
        '1'
    } else if d == 2 {
        '2'
    } else if d == 3 {
        '3'
    } else if d == 4 {
        '4'
    } else if d == 5 {
        '5'
    } else if d == 6 {
        '6'
    } else if d == 7 {
        '7'
    } else if d == 8 {
        '8'
    } else {
        '9'
    }
}

/// Appends the decimal notation of `n` to `out`.
pub fn push_decimal(out: &mut Vec<char>, n: u64)
    ensures
        final(out)@ == old(out)@ + decimal(n as nat),
    decreases n,
{
    if n >= 10 {
        push_decimal(out, n / 10);
    }
    out.push(digit_char_exec(n % 10));
    proof {
        if n < 10 {
            assert(old(out)@ + decimal(n as nat) =~= old(out)@.push(digit_char(n as nat)));
        } else {
            assert(old(out)@ + decimal(n as nat) =~= (old(out)@ + decimal((n / 10) as nat)).push(
                digit_char((n % 10) as nat),
            ));
        }
    }
}

/// Appends the decimal notation of `n`, padded with zeros to two digits, to `out`.
pub fn push_decimal2(out: &mut Vec<char>, n: u64)
    ensures
        final(out)@ == old(out)@ + decimal2(n as nat),
{
    if n < 10 {
        out.push('0');
    }
    push_decimal(out, n);
    proof {
        if n < 10 {
            assert(decimal(n as nat) == seq![digit_char(n as nat)]);
            assert(old(out)@.push('0') + decimal(n as nat) =~= old(out)@ + decimal2(n as nat));
        }
    }
}

/// Appends the decimal notation of a signed number to `out`.
pub fn push_signed_decimal(out: &mut Vec<char>, n: i64)
    ensures
        final(out)@ == old(out)@ + signed_decimal(n as int),
{
    if n < 0 {
        out.push('-');
        let m: u64 = if n == i64::MIN {
            9223372036854775808u64
        } else {
            (-n) as u64
        };
        push_decimal(out, m);
        assert(old(out)@.push('-') + decimal(m as nat) =~= old(out)@ + signed_decimal(n as int));
    } else {
        push_decimal(out, n as u64);
    }
}

// ── Integer parsing (std's `str::parse` for primitive integers) ───────

/// Why a string is not an integer of the asked type.
#[derive(Clone, Copy, Debug, PartialEq, Eq, Structural)]
pub enum IntErrorKind {
    Empty,
    InvalidDigit,
    PosOverflow,
    NegOverflow,
}

/// The value of an ASCII decimal digit.
pub open spec fn digit_value(c: char) -> Option<int> {
    if '0' as u32 <= c as u32 <= '9' as u32 {
        Some(c as u32 - '0' as u32)
    } else {
        None
    }
}

/// Reads the digits `ds` after the accumulated value `acc`, left to right: a non-digit is an
/// `InvalidDigit`, a value leaving `[min, max]` an overflow, whichever comes first.
pub open spec fn scan_digits(ds: Seq<char>, acc: int, neg: bool, min: int, max: int) -> Result<
    int,
    IntErrorKind,
>
    decreases ds.len(),
{
    if ds.len() == 0 {
        Ok(acc)
    } else {
        match digit_value(ds[0]) {
            None => Err(IntErrorKind::InvalidDigit),
            Some(d) => {
                let next = if neg {
                    acc * 10 - d
                } else {
                    acc * 10 + d
                };
                if neg && next < min {
                    Err(IntErrorKind::NegOverflow)
                } else if !neg && next > max {
                    Err(IntErrorKind::PosOverflow)
                } else {
                    scan_digits(ds.skip(1), next, neg, min, max)
                }
            },
        }
    }
}

/// The integer that `s` denotes in the type whose values are `[min, max]`: an optional `+`
/// (or `-` where `min < 0`) and at least one ASCII digit.
pub open spec fn parse_int(s: Seq<char>, min: int, max: int) -> Result<int, IntErrorKind> {
    if s.len() == 0 {
        Err(IntErrorKind::Empty)
    } else if (s[0] == '+' || s[0] == '-') && s.len() == 1 {
        Err(IntErrorKind::InvalidDigit)
    } else if s[0] == '+' {
        scan_digits(s.skip(1), 0, false, min, max)
    } else if s[0] == '-' && min < 0 {
        scan_digits(s.skip(1), 0, true, min, max)
    } else {
        scan_digits(s, 0, false, min, max)
    }
}

/// Scanning two pieces one after the other is scanning them together.
pub proof fn lemma_scan_digits_concat(a: Seq<char>, b: Seq<char>, acc: int, neg: bool, min: int, max: int)
    ensures
        scan_digits(a + b, acc, neg, min, max) == match scan_digits(a, acc, neg, min, max) {
            Ok(x) => scan_digits(b, x, neg, min, max),
            Err(e) => Err(e),
        },
    decreases a.len(),
{
    if a.len() > 0 {
        assert((a + b)[0] == a[0]);
        assert((a + b).skip(1) =~= a.skip(1) + b);
        if let Some(d) = digit_value(a[0]) {
            let next = if neg {
                acc * 10 - d
            } else {
                acc * 10 + d
            };
            lemma_scan_digits_concat(a.skip(1), b, next, neg, min, max);
        }
    } else {
        assert(a + b =~= b);
    }
}

/// The digit character of `d` has value `d`.
pub proof fn lemma_digit_char_value(d: nat)
    requires
        d < 10,
    ensures
        digit_value(digit_char(d)) == Some(d as int),
        digit_char(d) != '+' && digit_char(d) != '-',
{
}

/// The decimal notation of `n` starts with a digit.
pub proof fn lemma_decimal_first(n: nat)
    ensures
        decimal(n).len() > 0,
        digit_value(decimal(n)[0]) is Some,
    decreases n,
{
    if n < 10 {
        lemma_digit_char_value(n);
    } else {
        lemma_decimal_first(n / 10);
    }
}

/// Scanning the decimal notation of `n` reads `n` (or `-n`), where that fits.
pub proof fn lemma_scan_decimal(n: nat, neg: bool, min: int, max: int)
    requires
        min <= 0 <= max,
        neg ==> min <= -n,
        !neg ==> n <= max,
    ensures
        scan_digits(decimal(n), 0, neg, min, max) == Ok::<int, IntErrorKind>(if neg {
            -n
        } else {
            n as int
        }),
    decreases n,
{
    let d = n % 10;
    lemma_digit_char_value(d);
    assert(n == (n / 10) * 10 + d);
    if n < 10 {
        let s = seq![digit_char(n)];
        assert(s.skip(1) =~= Seq::<char>::empty());
        assert(decimal(n) == s);
        assert(digit_value(s[0]) == Some(n as int));
        assert(scan_digits(s.skip(1), if neg { -n } else { n as int }, neg, min, max) == Ok::<int, IntErrorKind>(if neg { -n } else { n as int }));
    } else {
        let q = n / 10;
        lemma_scan_decimal(q, neg, min, max);
        lemma_scan_digits_concat(decimal(q), seq![digit_char(d)], 0, neg, min, max);
        assert(decimal(n) =~= decimal(q) + seq![digit_char(d)]);
        let t = seq![digit_char(d)];
        assert(t.skip(1) =~= Seq::<char>::empty());
        assert(digit_value(t[0]) == Some(d as int));
        let a = if neg { -q } else { q as int };
        let next = if neg { a * 10 - d } else { a * 10 + d };
        assert(next == if neg { -n } else { n as int });
        assert(scan_digits(t.skip(1), next, neg, min, max) == Ok::<int, IntErrorKind>(next));
        assert(scan_digits(t, a, neg, min, max) == Ok::<int, IntErrorKind>(next));
    }
}

/// Reading back what formatting wrote: the decimal notation of a value of an integer type
/// parses as that value.
pub proof fn lemma_decimal_parses(n: int, min: int, max: int)
    requires
        min <= 0 < max,
        min <= n <= max,
    ensures
        parse_int(signed_decimal(n), min, max) == Ok::<int, IntErrorKind>(n),
{
    if n < 0 {
        let m = (-n) as nat;
        lemma_scan_decimal(m, true, min, max);
        lemma_decimal_first(m);
        let s = signed_decimal(n);
        assert(s.skip(1) =~= decimal(m));
    } else {
        let m = n as nat;
        lemma_scan_decimal(m, false, min, max);
        lemma_decimal_first(m);
        let s = decimal(m);
        let c = s[0];
        assert(c != '+' && c != '-') by {
            assert(digit_value(c) is Some);
        }
    }
}

/// The message std's `ParseIntError` displays for each kind.
pub open spec fn int_error_message(k: IntErrorKind) -> Seq<char> {
    match k {
        IntErrorKind::Empty => "cannot parse integer from empty string"@,
        IntErrorKind::InvalidDigit => "invalid digit found in string"@,
        IntErrorKind::PosOverflow => "number too large to fit in target type"@,
        IntErrorKind::NegOverflow => "number too small to fit in target type"@,
    }
}

/// The message std's `ParseIntError` displays for `k`.
pub fn int_error_string(k: IntErrorKind) -> (res: String)
    ensures
        res@ == int_error_message(k),
{
    match k {
        IntErrorKind::Empty => "cannot parse integer from empty string".to_string(),
        IntErrorKind::InvalidDigit => "invalid digit found in string".to_string(),
        IntErrorKind::PosOverflow => "number too large to fit in target type".to_string(),
        IntErrorKind::NegOverflow => "number too small to fit in target type".to_string(),
    }
}

/// `res` is what `parse_int(s, min, max)` gives.
pub open spec fn parsed_as(res: Result<i64, IntErrorKind>, s: Seq<char>, min: int, max: int) -> bool {
    match res {
        Ok(v) => parse_int(s, min, max) == Ok::<int, IntErrorKind>(v as int),
        Err(e) => parse_int(s, min, max) == Err::<int, IntErrorKind>(e),
    }
}

fn scan_digits_exec(v: &Vec<char>, start: usize, neg: bool, min: i64, max: i64) -> (res: Result<
    i64,
    IntErrorKind,
>)
    requires
        start <= v@.len(),
        -0x100_0000_0000 <= min <= 0 < max <= 0x100_0000_0000,
    ensures
        match res {
            Ok(x) => scan_digits(v@.skip(start as int), 0, neg, min as int, max as int) == Ok::<
                int,
                IntErrorKind,
            >(x as int),
            Err(e) => scan_digits(v@.skip(start as int), 0, neg, min as int, max as int) == Err::<
                int,
                IntErrorKind,
            >(e),
        },
        res matches Ok(x) ==> min <= x <= max,
{
    let mut acc: i64 = 0;
    let mut i = start;
    while i < v.len()
        invariant
            start <= i <= v@.len(),
            -0x100_0000_0000 <= min <= 0 < max <= 0x100_0000_0000,
            min <= acc <= max,
            neg ==> acc <= 0,
            !neg ==> acc >= 0,
            scan_digits(v@.skip(start as int), 0, neg, min as int, max as int) == scan_digits(
                v@.skip(i as int),
                acc as int,
                neg,
                min as int,
                max as int,
            ),
        decreases v.len() - i,
    {
        let c = v[i];
        let ghost rest = v@.skip(i as int);
        assert(rest[0] == c);
        assert(rest.skip(1) =~= v@.skip(i + 1));
        let u = c as u32;
        if !(48 <= u && u <= 57) {
            return Err(IntErrorKind::InvalidDigit);
        }
        let d = (u - 48) as i64;
        let next = if neg {
            acc * 10 - d
        } else {
            acc * 10 + d
        };
        if neg && next < min {
            return Err(IntErrorKind::NegOverflow);
        }
        if !neg && next > max {
            return Err(IntErrorKind::PosOverflow);
        }
        acc = next;
        i = i + 1;
    }
    assert(v@.skip(i as int) =~= Seq::<char>::empty());
    Ok(acc)
}

/// Parses `v` as an integer of the type whose values are `[min, max]`.
pub fn parse_int_exec(v: &Vec<char>, min: i64, max: i64) -> (res: Result<i64, IntErrorKind>)
    requires
        -0x100_0000_0000 <= min <= 0 < max <= 0x100_0000_0000,
    ensures
        parsed_as(res, v@, min as int, max as int),
        res matches Ok(x) ==> min <= x <= max,
{
    if v.len() == 0 {
        return Err(IntErrorKind::Empty);
    }
    let c0 = v[0];
    if (c0 == '+' || c0 == '-') && v.len() == 1 {
        return Err(IntErrorKind::InvalidDigit);
    }
    let r = if c0 == '+' {
        scan_digits_exec(v, 1, false, min, max)
    } else if c0 == '-' && min < 0 {
        scan_digits_exec(v, 1, true, min, max)
    } else {
        assert(v@.skip(0) =~= v@);
        scan_digits_exec(v, 0, false, min, max)
    };
    r
}

/// Parses `s` as a `u8` (std's `str::parse::<u8>`).
pub fn parse_u8(s: &str) -> (res: Result<u8, IntErrorKind>)
    ensures
        match res {
            Ok(x) => parse_int(s@, 0, 255) == Ok::<int, IntErrorKind>(x as int),
            Err(e) => parse_int(s@, 0, 255) == Err::<int, IntErrorKind>(e),
        },
{
    let v = to_chars(s);
    match parse_int_exec(&v, 0, 255) {
        Ok(x) => Ok(x as u8),
        Err(e) => Err(e),
    }
}

/// Parses `s` as a `u32` (std's `str::parse::<u32>`).
pub fn parse_u32(s: &str) -> (res: Result<u32, IntErrorKind>)
    ensures
        match res {
            Ok(x) => parse_int(s@, 0, 0xffff_ffff) == Ok::<int, IntErrorKind>(x as int),
            Err(e) => parse_int(s@, 0, 0xffff_ffff) == Err::<int, IntErrorKind>(e),
        },
{
    let v = to_chars(s);
    match parse_int_exec(&v, 0, 0xffff_ffff) {
        Ok(x) => Ok(x as u32),
        Err(e) => Err(e),
    }
}

/// Parses `s` as an `i16` (std's `str::parse::<i16>`).
pub fn parse_i16(s: &str) -> (res: Result<i16, IntErrorKind>)
    ensures
        match res {
            Ok(x) => parse_int(s@, -32768, 32767) == Ok::<int, IntErrorKind>(x as int),
            Err(e) => parse_int(s@, -32768, 32767) == Err::<int, IntErrorKind>(e),
        },
{
    let v = to_chars(s);
    match parse_int_exec(&v, -32768, 32767) {
        Ok(x) => Ok(x as i16),
        Err(e) => Err(e),
    }
}

/// Parses `s` as an `i32` (std's `str::parse::<i32>`).
pub fn parse_i32(s: &str) -> (res: Result<i32, IntErrorKind>)
    ensures
        match res {
            Ok(x) => parse_int(s@, -0x8000_0000, 0x7fff_ffff) == Ok::<int, IntErrorKind>(x as int),
            Err(e) => parse_int(s@, -0x8000_0000, 0x7fff_ffff) == Err::<int, IntErrorKind>(e),
        },
{
    let v = to_chars(s);
    match parse_int_exec(&v, -0x8000_0000, 0x7fff_ffff) {
        Ok(x) => Ok(x as i32),
        Err(e) => Err(e),
    }
}

// ── Lexicographic order (std's `Ord` for strings) ──────────────────────

/// `a` sorts strictly before `b`: at the first differing position `a` has the smaller
/// character, or `a` is a proper prefix of `b`. On UTF-8 this is std's byte order for `str`.
pub open spec fn lex_lt(a: Seq<char>, b: Seq<char>) -> bool
    decreases a.len(),
{
    if a.len() == 0 {
        b.len() > 0
    } else if b.len() == 0 {
        false
    } else if a[0] != b[0] {
        a[0] < b[0]
    } else {
        lex_lt(a.skip(1), b.skip(1))
    }
}

/// The order is irreflexive, asymmetric and total on distinct strings.
pub proof fn lemma_lex_trichotomy(a: Seq<char>, b: Seq<char>)
    ensures
        !lex_lt(a, a),
        lex_lt(a, b) ==> !lex_lt(b, a),
        a != b ==> lex_lt(a, b) || lex_lt(b, a),
    decreases a.len(),
{
    if a.len() > 0 {
        lemma_lex_trichotomy(a.skip(1), a.skip(1));
        if b.len() > 0 {
            lemma_lex_trichotomy(a.skip(1), b.skip(1));
            if a[0] == b[0] && a != b {
                assert(a.skip(1) != b.skip(1)) by {
                    if a.skip(1) == b.skip(1) {
                        assert(a =~= seq![a[0]] + a.skip(1));
                        assert(b =~= seq![b[0]] + b.skip(1));
                    }
                }
            }
        }
    } else {
        if b.len() == 0 {
            assert(a =~= b);
        }
    }
}

/// The order is transitive.
pub proof fn lemma_lex_transitive(a: Seq<char>, b: Seq<char>, c: Seq<char>)
    requires
        lex_lt(a, b),
        lex_lt(b, c),
    ensures
        lex_lt(a, c),
    decreases a.len(),
{
    if a.len() > 0 && b.len() > 0 && c.len() > 0 {
        if a[0] == b[0] && b[0] == c[0] {
            lemma_lex_transitive(a.skip(1), b.skip(1), c.skip(1));
        }
    }
}

/// Compares two character sequences in lexicographic order.
pub fn lex_lt_exec(a: &Vec<char>, b: &Vec<char>) -> (res: bool)
    ensures
        res == lex_lt(a@, b@),
{
    let mut i: usize = 0;
    assert(a@.skip(0) =~= a@);
    assert(b@.skip(0) =~= b@);
    while i < a.len() && i < b.len() && a[i] == b[i]
        invariant
            i <= a@.len(),
            i <= b@.len(),
            lex_lt(a@, b@) == lex_lt(a@.skip(i as int), b@.skip(i as int)),
        decreases a.len() - i,
    {
        assert(a@.skip(i as int).skip(1) =~= a@.skip(i + 1));
        assert(b@.skip(i as int).skip(1) =~= b@.skip(i + 1));
        i = i + 1;
    }
    if i == a.len() {
        i < b.len()
    } else if i == b.len() {
        false
    } else {
        a[i] < b[i]
    }
}

// ── Case mapping ───────────────────────────────────────────────────────

/// What std's `str::to_lowercase` returns for `s` (Unicode lowercase mapping).
pub uninterp spec fn lowercase(s: Seq<char>) -> Seq<char>;

/// std's `str::to_lowercase`: the Unicode lowercase mapping of every character. The mapping
/// takes pages to state, so its result is named by `lowercase`, a function of `s` alone.
#[verifier::external_body]
pub(crate) fn to_lowercase(s: &str) -> (res: String)
    ensures
        res@ == lowercase(s@),
{
    s.to_lowercase()
}

// ── Decoding ───────────────────────────────────────────────────────────

/// What std's `String::from_utf8_lossy` returns for `bytes`.
pub uninterp spec fn utf8_lossy(bytes: Seq<u8>) -> Seq<char>;

/// std's `String::from_utf8_lossy`: the bytes decoded as UTF-8, each invalid sequence
/// replaced by U+FFFD. Which sequences get replaced takes pages to state, so the result is
/// named by `utf8_lossy`; std documents that valid UTF-8 is decoded as it stands.
#[verifier::external_body]
pub(crate) fn from_utf8_lossy(bytes: &[u8]) -> (res: String)
    ensures
        res@ == utf8_lossy(bytes@),
        vstd::utf8::valid_utf8(bytes@) ==> res@ == vstd::utf8::decode_utf8(bytes@),
{
    String::from_utf8_lossy(bytes).into_owned()
}

} // verus!
