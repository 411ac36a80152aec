//! Character-level text operations with their mathematical meaning:
//! trimming, searching, replacing, splitting and decimal rendering.

use vstd::prelude::*;

verus! {

/// The Unicode `White_Space` property, the whitespace of `char::is_whitespace`
/// and `str::trim`.
pub open spec fn is_white_space(c: char) -> bool {
    let u = c as u32;
    ||| 0x09 <= u <= 0x0D
    ||| u == 0x20
    ||| u == 0x85
    ||| u == 0xA0
    ||| u == 0x1680
    ||| 0x2000 <= u <= 0x200A
    ||| u == 0x2028
    ||| u == 0x2029
    ||| u == 0x202F
    ||| u == 0x205F
    ||| u == 0x3000
}

/// `s` without its leading whitespace.
pub open spec fn trim_start(s: Seq<char>) -> Seq<char>
    decreases s.len(),
{
    if s.len() > 0 && is_white_space(s[0]) {
        trim_start(s.drop_first())
    } else {
        s
    }
}

/// `s` without its trailing whitespace.
pub open spec fn trim_end(s: Seq<char>) -> Seq<char>
    decreases s.len(),
{
    if s.len() > 0 && is_white_space(s.last()) {
        trim_end(s.drop_last())
    } else {
        s
    }
}

/// `s` without leading and trailing whitespace.
pub open spec fn trimmed(s: Seq<char>) -> Seq<char> {
    trim_end(trim_start(s))
}

/// Calls `String::push`, which appends one char at the end of the string.
#[verifier::external_body]
fn push_char(s: &mut String, c: char)
    ensures
        final(s)@ == old(s)@.push(c),
{
    s.push(c)
}

/// The chars of a string slice, in order.
pub fn chars_of(s: &str) -> (v: Vec<char>)
    ensures
        v@ == s@,
{
    let n = s.unicode_len();
    let mut v: Vec<char> = Vec::new();
    for i in 0..n
        invariant
            n == s@.len(),
            v@ == s@.subrange(0, i as int),
    {
        v.push(s.get_char(i));
        assert(v@ =~= s@.subrange(0, i + 1));
    }
    assert(v@ =~= s@);
    v
}

/// A string made of the given chars.
pub fn string_of(v: &[char]) -> (s: String)
    ensures
        s@ == v@,
{
    let mut s = String::new();
    for i in 0..v.len()
        invariant
            s@ == v@.subrange(0, i as int),
    {
        push_char(&mut s, v[i]);
        assert(s@ =~= v@.subrange(0, i + 1));
    }
    assert(s@ =~= v@);
    s
}


/// Whether `c` is Unicode `White_Space`.
pub fn is_white_space_char(c: char) -> (b: bool)
    ensures
        b == is_white_space(c),
{
    let u = c as u32;
    (0x09 <= u && u <= 0x0D) || u == 0x20 || u == 0x85 || u == 0xA0 || u == 0x1680 || (0x2000
        <= u && u <= 0x200A) || u == 0x2028 || u == 0x2029 || u == 0x202F || u == 0x205F || u
        == 0x3000
}

/// Trimming the start of `s` drops exactly its first `k` chars when those are
/// whitespace and the next one is not.
proof fn lemma_trim_start(s: Seq<char>, k: int)
    requires
        0 <= k <= s.len(),
        forall|i: int| 0 <= i < k ==> is_white_space(#[trigger] s[i]),
        k == s.len() || !is_white_space(s[k]),
    ensures
        trim_start(s) == s.subrange(k, s.len() as int),
    decreases k,
{
    if k == 0 {
        assert(s.subrange(0, s.len() as int) =~= s);
    } else {
        assert(is_white_space(s[0]));
        let t = s.drop_first();
        assert forall|i: int| 0 <= i < k - 1 implies is_white_space(#[trigger] t[i]) by {
            assert(t[i] == s[i + 1]);
        }
        lemma_trim_start(t, k - 1);
        assert(t.subrange(k - 1, t.len() as int) =~= s.subrange(k, s.len() as int));
    }
}

/// Trimming the end of `s` keeps exactly its first `e` chars when the chars
/// after them are whitespace and the one before is not.
proof fn lemma_trim_end(s: Seq<char>, e: int)
    requires
        0 <= e <= s.len(),
        forall|i: int| e <= i < s.len() ==> is_white_space(#[trigger] s[i]),
        e == 0 || !is_white_space(s[e - 1]),
    ensures
        trim_end(s) == s.subrange(0, e),
    decreases s.len() - e,
{
    if e == s.len() {
        assert(s.subrange(0, e) =~= s);
    } else {
        assert(is_white_space(s.last()));
        let t = s.drop_last();
        assert forall|i: int| e <= i < t.len() implies is_white_space(#[trigger] t[i]) by {
            assert(t[i] == s[i]);
        }
        lemma_trim_end(t, e);
        assert(t.subrange(0, e) =~= s.subrange(0, e));
    }
}

/// `v` without leading and trailing whitespace.
pub fn trim_chars(v: &[char]) -> (r: Vec<char>)
    ensures
        r@ == trimmed(v@),
{
    let n = v.len();
    let mut k: usize = 0;
    while k < n && is_white_space_char(v[k])
        invariant
            n == v@.len(),
            k <= n,
            forall|i: int| 0 <= i < k ==> is_white_space(#[trigger] v@[i]),
        decreases n - k,
    {
        k += 1;
    }
    let mut e: usize = n;
    while e > k && is_white_space_char(v[e - 1])
        invariant
            n == v@.len(),
            k <= e <= n,
            forall|i: int| e <= i < n ==> is_white_space(#[trigger] v@[i]),
        decreases e,
    {
        e -= 1;
    }
    proof {
        lemma_trim_start(v@, k as int);
        let t = v@.subrange(k as int, n as int);
        assert forall|i: int| e - k <= i < t.len() implies is_white_space(#[trigger] t[i]) by {
            assert(t[i] == v@[i + k]);
        }
        if e > k {
            assert(t[e - k - 1] == v@[e - 1]);
        }
        lemma_trim_end(t, e - k);
        assert(t.subrange(0, e - k) =~= v@.subrange(k as int, e as int));
    }
    let mut r: Vec<char> = Vec::new();
    let mut i = k;
    while i < e
        invariant
            k <= i <= e <= n,
            n == v@.len(),
            r@ == v@.subrange(k as int, i as int),
        decreases e - i,
    {
        r.push(v[i]);
        i += 1;
        assert(r@ =~= v@.subrange(k as int, i as int));
    }
    r
}

/// A string slice without leading and trailing whitespace.
pub fn trim(s: &str) -> (r: String)
    ensures
        r@ == trimmed(s@),
{
    let v = chars_of(s);
    let t = trim_chars(v.as_slice());
    string_of(t.as_slice())
}

/// Whether `s` begins with `p`.
pub open spec fn starts_with(s: Seq<char>, p: Seq<char>) -> bool {
    p.len() <= s.len() && s.subrange(0, p.len() as int) == p
}

/// Whether `p` occurs in `s` at position `i`.
pub open spec fn occurs_at(s: Seq<char>, p: Seq<char>, i: int) -> bool {
    0 <= i <= s.len() && starts_with(s.subrange(i, s.len() as int), p)
}

/// Whether `p` occurs somewhere in `s`.
pub open spec fn has_substring(s: Seq<char>, p: Seq<char>) -> bool {
    exists|i: int| occurs_at(s, p, i)
}

/// Whether `p` occurs in `s` at position `i`.
pub fn matches_at(s: &[char], i: usize, p: &[char]) -> (b: bool)
    requires
        i <= s@.len(),
    ensures
        b == occurs_at(s@, p@, i as int),
{
    let ghost rest = s@.subrange(i as int, s@.len() as int);
    if p.len() > s.len() - i {
        return false;
    }
    let mut j: usize = 0;
    while j < p.len()
        invariant
            i <= s@.len(),
            p@.len() <= s@.len() - i,
            i + p.len() <= s.len(),
            j <= p@.len(),
            rest == s@.subrange(i as int, s@.len() as int),
            forall|k: int| 0 <= k < j ==> s@[i + k] == p@[k],
        decreases p@.len() - j,
    {
        if s[i + j] != p[j] {
            assert(rest.subrange(0, p@.len() as int)[j as int] == s@[i + j]);
            return false;
        }
        j += 1;
    }
    assert(rest.subrange(0, p@.len() as int) =~= p@);
    true
}

/// `s` with every left-to-right, non-overlapping occurrence of `from`
/// replaced by `to` (the meaning of `str::replace` for a non-empty `from`).
pub open spec fn replace_all(s: Seq<char>, from: Seq<char>, to: Seq<char>) -> Seq<char>
    decreases s.len(),
{
    if s.len() == 0 {
        seq![]
    } else if from.len() > 0 && starts_with(s, from) {
        to + replace_all(s.subrange(from.len() as int, s.len() as int), from, to)
    } else {
        seq![s[0]] + replace_all(s.drop_first(), from, to)
    }
}

/// Appends `more` to `out`.
fn append_chars(out: &mut Vec<char>, more: &[char])
    ensures
        final(out)@ == old(out)@ + more@,
{
    let ghost start = out@;
    for j in 0..more.len()
        invariant
            out@ == start + more@.subrange(0, j as int),
    {
        out.push(more[j]);
        assert(out@ =~= start + more@.subrange(0, j + 1));
    }
    assert(more@.subrange(0, more@.len() as int) =~= more@);
}

/// `s` with every occurrence of `from` replaced by `to`.
pub fn replace_chars(s: &[char], from: &[char], to: &[char]) -> (r: Vec<char>)
    requires
        from@.len() > 0,
    ensures
        r@ == replace_all(s@, from@, to@),
{
    let n = s.len();
    let mut out: Vec<char> = Vec::new();
    let mut i: usize = 0;
    assert(s@.subrange(0, n as int) =~= s@);
    while i < n
        invariant
            n == s@.len(),
            i <= n,
            from@.len() > 0,
            out@ + replace_all(s@.subrange(i as int, n as int), from@, to@) == replace_all(
                s@,
                from@,
                to@,
            ),
        decreases n - i,
    {
        let ghost rest = s@.subrange(i as int, n as int);
        let ghost before = out@;
        if matches_at(s, i, from) {
            append_chars(&mut out, to);
            assert(rest.subrange(from@.len() as int, rest.len() as int) =~= s@.subrange(
                i + from@.len(),
                n as int,
            ));
            assert(before + (to@ + replace_all(s@.subrange(i + from@.len(), n as int), from@, to@))
                =~= out@ + replace_all(s@.subrange(i + from@.len(), n as int), from@, to@));
            i += from.len();
        } else {
            out.push(s[i]);
            assert(rest.drop_first() =~= s@.subrange(i + 1, n as int));
            assert(rest[0] == s@[i as int]);
            assert(before + (seq![s@[i as int]] + replace_all(s@.subrange(i + 1, n as int), from@, to@))
                =~= out@ + replace_all(s@.subrange(i + 1, n as int), from@, to@));
            i += 1;
        }
    }
    assert(s@.subrange(n as int, n as int) =~= Seq::<char>::empty());
    assert(out@ + Seq::<char>::empty() =~= out@);
    out
}

/// `s` with every occurrence of `from` replaced by `to`.
pub fn replace(s: &str, from: &str, to: &str) -> (r: String)
    requires
        from@.len() > 0,
    ensures
        r@ == replace_all(s@, from@, to@),
{
    let sv = chars_of(s);
    let fv = chars_of(from);
    let tv = chars_of(to);
    let r = replace_chars(sv.as_slice(), fv.as_slice(), tv.as_slice());
    string_of(r.as_slice())
}

/// `s` with its prefix `from` replaced by `to`, where it begins with `from`.
pub open spec fn replaced_prefix(s: Seq<char>, from: Seq<char>, to: Seq<char>) -> Seq<char> {
    if starts_with(s, from) {
        to + s.subrange(from.len() as int, s.len() as int)
    } else {
        s
    }
}

/// `s` with its prefix `from` replaced by `to`, where it begins with `from`.
pub fn replace_prefix(s: &str, from: &str, to: &str) -> (r: String)
    ensures
        r@ == replaced_prefix(s@, from@, to@),
{
    let sv = chars_of(s);
    let fv = chars_of(from);
    if !matches_at(sv.as_slice(), 0, fv.as_slice()) {
        assert(sv@.subrange(0, sv@.len() as int) =~= sv@);
        return string_of(sv.as_slice());
    }
    assert(sv@.subrange(0, sv@.len() as int) =~= sv@);
    let mut out = chars_of(to);
    let ghost start = out@;
    let n = fv.len();
    for i in n..sv.len()
        invariant
            n == fv@.len(),
            n <= sv@.len(),
            out@ == start + sv@.subrange(n as int, i as int),
    {
        out.push(sv[i]);
        assert(out@ =~= start + sv@.subrange(n as int, i + 1));
    }
    string_of(out.as_slice())
}

/// Whether `p` occurs in `s`.
pub fn contains_chars(s: &[char], p: &[char]) -> (b: bool)
    ensures
        b == has_substring(s@, p@),
{
    let n = s.len();
    let mut i: usize = 0;
    while i < n
        invariant
            n == s@.len(),
            i <= n,
            forall|k: int| 0 <= k < i ==> !occurs_at(s@, p@, k),
        decreases n - i,
    {
        if matches_at(s, i, p) {
            return true;
        }
        i += 1;
    }
    if matches_at(s, n, p) {
        return true;
    }
    assert forall|k: int| !occurs_at(s@, p@, k) by {
        if 0 <= k <= n && k != n {
            assert(k < i);
        }
    }
    false
}

/// Whether `p` occurs in `s`.
pub fn contains(s: &str, p: &str) -> (b: bool)
    ensures
        b == has_substring(s@, p@),
{
    let sv = chars_of(s);
    let pv = chars_of(p);
    contains_chars(sv.as_slice(), pv.as_slice())
}


/// The pieces of `s` between left-to-right, non-overlapping occurrences of a
/// non-empty `sep`; `cur` is the piece already begun.
pub open spec fn split_from(s: Seq<char>, sep: Seq<char>, cur: Seq<char>) -> Seq<Seq<char>>
    decreases s.len(),
{
    if s.len() == 0 {
        seq![cur]
    } else if sep.len() > 0 && starts_with(s, sep) {
        seq![cur] + split_from(s.subrange(sep.len() as int, s.len() as int), sep, seq![])
    } else {
        split_from(s.drop_first(), sep, cur.push(s[0]))
    }
}

/// The pieces that `str::split` yields for the separator `sep`: with an empty
/// separator, an empty piece, then each char on its own, then an empty piece.
pub open spec fn split_parts(s: Seq<char>, sep: Seq<char>) -> Seq<Seq<char>> {
    if sep.len() == 0 {
        seq![Seq::<char>::empty()] + s.map_values(|c: char| seq![c]) + seq![Seq::<char>::empty()]
    } else {
        split_from(s, sep, Seq::<char>::empty())
    }
}

/// The contents of a sequence of char vectors.
pub open spec fn char_vec_views(parts: Seq<Vec<char>>) -> Seq<Seq<char>> {
    parts.map_values(|p: Vec<char>| p@)
}

/// The contents of a sequence of strings.
pub open spec fn string_views(parts: Seq<String>) -> Seq<Seq<char>> {
    parts.map_values(|p: String| p@)
}

/// The pieces of `s` separated by `sep`, as `str::split` yields them.
pub fn split_chars(s: &[char], sep: &[char]) -> (parts: Vec<Vec<char>>)
    ensures
        char_vec_views(parts@) == split_parts(s@, sep@),
{
    let n = s.len();
    let mut parts: Vec<Vec<char>> = Vec::new();
    if sep.len() == 0 {
        parts.push(Vec::new());
        for i in 0..n
            invariant
                n == s@.len(),
                char_vec_views(parts@) == seq![Seq::<char>::empty()] + s@.subrange(
                    0,
                    i as int,
                ).map_values(|c: char| seq![c]),
        {
            let ghost before = parts@;
            let mut one: Vec<char> = Vec::new();
            one.push(s[i]);
            parts.push(one);
            assert(char_vec_views(parts@) =~= char_vec_views(before).push(seq![s@[i as int]]));
            assert(s@.subrange(0, i + 1).map_values(|c: char| seq![c]) =~= s@.subrange(
                0,
                i as int,
            ).map_values(|c: char| seq![c]).push(seq![s@[i as int]]));
        }
        let ghost before = parts@;
        parts.push(Vec::new());
        assert(char_vec_views(parts@) =~= char_vec_views(before).push(Seq::<char>::empty()));
        assert(s@.subrange(0, n as int) =~= s@);
        return parts;
    }
    let mut cur: Vec<char> = Vec::new();
    let mut i: usize = 0;
    assert(s@.subrange(0, n as int) =~= s@);
    assert(char_vec_views(parts@) =~= Seq::<Seq<char>>::empty());
    while i < n
        invariant
            n == s@.len(),
            i <= n,
            sep@.len() > 0,
            char_vec_views(parts@) + split_from(s@.subrange(i as int, n as int), sep@, cur@)
                == split_from(s@, sep@, Seq::<char>::empty()),
        decreases n - i,
    {
        let ghost rest = s@.subrange(i as int, n as int);
        let ghost before = parts@;
        if matches_at(s, i, sep) {
            let ghost piece = cur@;
            parts.push(cur);
            cur = Vec::new();
            assert(rest.subrange(sep@.len() as int, rest.len() as int) =~= s@.subrange(
                i + sep@.len(),
                n as int,
            ));
            assert(char_vec_views(parts@) =~= char_vec_views(before) + seq![piece]);
            assert(char_vec_views(before) + (seq![piece] + split_from(
                s@.subrange(i + sep@.len(), n as int),
                sep@,
                Seq::<char>::empty(),
            )) =~= char_vec_views(parts@) + split_from(
                s@.subrange(i + sep@.len(), n as int),
                sep@,
                cur@,
            ));
            i += sep.len();
        } else {
            cur.push(s[i]);
            assert(rest.drop_first() =~= s@.subrange(i + 1, n as int));
            assert(rest[0] == s@[i as int]);
            i += 1;
        }
    }
    let ghost before = parts@;
    let ghost last = cur@;
    parts.push(cur);
    assert(char_vec_views(parts@) =~= char_vec_views(before) + seq![last]);
    parts
}

/// The pieces of `s` separated by `sep`, as `str::split` yields them.
pub fn split(s: &str, sep: &str) -> (parts: Vec<String>)
    ensures
        string_views(parts@) == split_parts(s@, sep@),
{
    let sv = chars_of(s);
    let pv = chars_of(sep);
    let pieces = split_chars(sv.as_slice(), pv.as_slice());
    let mut parts: Vec<String> = Vec::new();
    for i in 0..pieces.len()
        invariant
            string_views(parts@) == char_vec_views(pieces@).subrange(0, i as int),
    {
        let ghost before = parts@;
        let piece = string_of(pieces[i].as_slice());
        assert(piece@ == pieces@[i as int]@);
        parts.push(piece);
        assert(string_views(parts@) =~= string_views(before).push(pieces@[i as int]@));
        assert(char_vec_views(pieces@)[i as int] == pieces@[i as int]@);
        assert(string_views(parts@) =~= char_vec_views(pieces@).subrange(0, i + 1));
    }
    assert(char_vec_views(pieces@).subrange(0, pieces@.len() as int) =~= char_vec_views(pieces@));
    parts
}

/// A length taken as `u32`: its remainder modulo 2^32.
pub open spec fn len_as_u32(n: nat) -> int {
    (n as int) % 0x1_0000_0000
}

/// The decimal digit `d` (from 0 to 9) as a char.
pub open spec fn digit_char(d: int) -> char {
    if d == 0 {
        '0'
    } else if d == 1 {
        '1'
    } else if d == 2 {
        '2'
    } else if d == 3 {
        '3'
    } else if d == 4 {
        '4'
    } else if d == 5 {
        '5'
    } else if d == 6 {
        '6'
    } else if d == 7 {
        '7'
    } else if d == 8 {
        '8'
    } else {
        '9'
    }
}

/// The decimal notation of `n`, without sign or leading zeros.
pub open spec fn decimal(n: nat) -> Seq<char>
    decreases n,
{
    if n < 10 {
        seq![digit_char(n as int)]
    } else {
        decimal(n / 10).push(digit_char((n % 10) as int))
    }
}

/// The char of the decimal digit `d`.
fn digit(d: u64) -> (c: char)
    requires
        d < 10,
    ensures
        c == digit_char(d as int),
{
    match d {
        0 => '0',
        1 => '1',
        2 => '2',
        3 => '3',
        4 => '4',
        5 => '5',
        6 => '6',
        7 => '7',
        8 => '8',
        _ => '9',
    }
}

/// The decimal digits of `n`.
fn decimal_chars(n: u64) -> (v: Vec<char>)
    ensures
        v@ == decimal(n as nat),
    decreases n,
{
    if n < 10 {
        let mut v: Vec<char> = Vec::new();
        v.push(digit(n));
        assert(v@ =~= seq![digit_char(n as int)]);
        v
    } else {
        let mut v = decimal_chars(n / 10);
        v.push(digit(n % 10));
        v
    }
}

/// The decimal notation of `n`, as `Display` prints an unsigned integer.
pub fn decimal_string(n: u64) -> (s: String)
    ensures
        s@ == decimal(n as nat),
{
    let v = decimal_chars(n);
    string_of(v.as_slice())
}

/// Appends `more` to the text of `out`.
pub fn push_str(out: &mut String, more: &str)
    ensures
        final(out)@ == old(out)@ + more@,
{
    let v = chars_of(more);
    let ghost start = out@;
    for i in 0..v.len()
        invariant
            v@ == more@,
            out@ == start + v@.subrange(0, i as int),
    {
        push_char(out, v[i]);
        assert(out@ =~= start + v@.subrange(0, i + 1));
    }
    assert(v@.subrange(0, v@.len() as int) =~= more@);
}

/// Whether two string slices hold the same chars.
pub fn str_eq(a: &str, b: &str) -> (r: bool)
    ensures
        r == (a@ == b@),
{
    let x = a.to_owned();
    let y = b.to_owned();
    x == y
}


/// Replacing leaves the first `k` chars of `s` as they are when no
/// occurrence of `from` begins among them.
pub proof fn lemma_replace_keeps_prefix(s: Seq<char>, from: Seq<char>, to: Seq<char>, k: int)
    requires
        from.len() > 0,
        0 <= k <= s.len(),
        forall|i: int| 0 <= i < k ==> !occurs_at(s, from, i),
    ensures
        replace_all(s, from, to) == s.subrange(0, k) + replace_all(
            s.subrange(k, s.len() as int),
            from,
            to,
        ),
    decreases k,
{
    if k == 0 {
        assert(s.subrange(0, s.len() as int) =~= s);
        assert(s.subrange(0, 0) + replace_all(s, from, to) =~= replace_all(s, from, to));
    } else {
        assert(!occurs_at(s, from, 0));
        assert(s.subrange(0, s.len() as int) =~= s);
        let t = s.drop_first();
        assert forall|i: int| 0 <= i < k - 1 implies !occurs_at(t, from, i) by {
            assert(t.subrange(i, t.len() as int) =~= s.subrange(i + 1, s.len() as int));
            assert(!occurs_at(s, from, i + 1));
        }
        lemma_replace_keeps_prefix(t, from, to, k - 1);
        assert(t.subrange(k - 1, t.len() as int) =~= s.subrange(k, s.len() as int));
        assert(seq![s[0]] + t.subrange(0, k - 1) =~= s.subrange(0, k));
    }
}

/// Where `from` occurs at the start of `s`, replacing begins with `to`.
pub proof fn lemma_replace_at_start(s: Seq<char>, from: Seq<char>, to: Seq<char>)
    requires
        from.len() > 0,
        starts_with(s, from),
    ensures
        replace_all(s, from, to) == to + replace_all(
            s.subrange(from.len() as int, s.len() as int),
            from,
            to,
        ),
{
}

/// A char property that `s` and `to` have everywhere, the result of
/// replacing has everywhere too.
pub proof fn lemma_replace_keeps_property(
    s: Seq<char>,
    from: Seq<char>,
    to: Seq<char>,
    p: spec_fn(char) -> bool,
)
    requires
        forall|i: int| 0 <= i < s.len() ==> p(#[trigger] s[i]),
        forall|i: int| 0 <= i < to.len() ==> p(#[trigger] to[i]),
    ensures
        forall|i: int|
            0 <= i < replace_all(s, from, to).len() ==> p(#[trigger] replace_all(s, from, to)[i]),
    decreases s.len(),
{
    if s.len() > 0 {
        if from.len() > 0 && starts_with(s, from) {
            let rest = s.subrange(from.len() as int, s.len() as int);
            assert forall|i: int| 0 <= i < rest.len() implies p(#[trigger] rest[i]) by {
                assert(rest[i] == s[i + from.len()]);
            }
            lemma_replace_keeps_property(rest, from, to, p);
            let r = replace_all(rest, from, to);
            assert forall|i: int| 0 <= i < (to + r).len() implies p(#[trigger] (to + r)[i]) by {
                if i >= to.len() {
                    assert((to + r)[i] == r[i - to.len()]);
                }
            }
        } else {
            let rest = s.drop_first();
            assert forall|i: int| 0 <= i < rest.len() implies p(#[trigger] rest[i]) by {
                assert(rest[i] == s[i + 1]);
            }
            lemma_replace_keeps_property(rest, from, to, p);
            let r = replace_all(rest, from, to);
            assert forall|i: int| 0 <= i < (seq![s[0]] + r).len() implies p(
                #[trigger] (seq![s[0]] + r)[i],
            ) by {
                if i >= 1 {
                    assert((seq![s[0]] + r)[i] == r[i - 1]);
                }
            }
        }
    }
}

} // verus!
