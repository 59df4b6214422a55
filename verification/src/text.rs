use vstd::prelude::*;
use vstd::string::StringSliceAdditionalSpecFns;
use vstd::utf8::encode_utf8;

verus! {

/// The code point of `c`, as a `u64`.
pub open spec fn code(c: char) -> u64 {
    (c as u32) as u64
}

/// The code points of a character sequence.
pub open spec fn codes(s: Seq<char>) -> Seq<u64> {
    s.map_values(|c: char| code(c))
}

/// Different characters have different code points.
pub proof fn lemma_codes_injective(a: Seq<char>, b: Seq<char>)
    requires
        codes(a) == codes(b),
    ensures
        a == b,
{
    assert(a.len() == codes(a).len());
    assert(b.len() == codes(b).len());
    assert forall|i: int| 0 <= i < a.len() implies a[i] == b[i] by {
        assert(codes(a)[i] == codes(b)[i]);
        assert(codes(a)[i] == code(a[i]));
        assert(codes(b)[i] == code(b[i]));
        assert((a[i] as u32) as u64 == (b[i] as u32) as u64);
        assert(a[i] as u32 == b[i] as u32);
        vstd::utf8::char_u32_cast(a[i], a[i] as u32);
        vstd::utf8::char_u32_cast(b[i], b[i] as u32);
    }
    assert(a =~= b);
}

/// Collects the code points of `s`.
pub fn code_points(s: &str) -> (res: Vec<u64>)
    ensures
        res@ == codes(s@),
{
    let mut res: Vec<u64> = Vec::new();
    for c in it: s.chars()
        invariant
            res@ == codes(it.seq().take(it.index() as int)),
            it.seq() == s@,
    {
        let ghost before = res@;
        res.push(c as u32 as u64);
        proof {
            assert(it.seq().take(it.index() + 1) =~= it.seq().take(it.index() as int).push(c));
        }
    }
    proof {
        assert(s@.take(s@.len() as int) =~= s@);
    }
    res
}

} // verus!

verus! {

/// Strict lexicographic order on code-point sequences. For strings this is the
/// order of `str::cmp`: UTF-8 keeps the order of code points.
pub open spec fn lex_lt(a: Seq<u64>, b: Seq<u64>) -> bool
    decreases a.len(),
{
    if a.len() == 0 {
        b.len() > 0
    } else if b.len() == 0 {
        false
    } else if a[0] != b[0] {
        a[0] < b[0]
    } else {
        lex_lt(a.drop_first(), b.drop_first())
    }
}

/// `lex_lt` is irreflexive.
pub proof fn lemma_lex_irreflexive(a: Seq<u64>)
    ensures
        !lex_lt(a, a),
    decreases a.len(),
{
    if a.len() > 0 {
        lemma_lex_irreflexive(a.drop_first());
    }
}

/// Any two sequences are equal or ordered one way, and not both ways.
pub proof fn lemma_lex_trichotomy(a: Seq<u64>, b: Seq<u64>)
    ensures
        a == b || lex_lt(a, b) || lex_lt(b, a),
        !(lex_lt(a, b) && lex_lt(b, a)),
        lex_lt(a, b) ==> a != b,
    decreases a.len(),
{
    lemma_lex_irreflexive(a);
    if a.len() > 0 && b.len() > 0 && a[0] == b[0] {
        lemma_lex_trichotomy(a.drop_first(), b.drop_first());
        if a.drop_first() == b.drop_first() {
            assert(a =~= seq![a[0]] + a.drop_first());
            assert(b =~= seq![b[0]] + b.drop_first());
        }
    } else if a.len() == 0 && b.len() == 0 {
        assert(a =~= b);
    }
}

/// `lex_lt` is transitive.
pub proof fn lemma_lex_transitive(a: Seq<u64>, b: Seq<u64>, c: Seq<u64>)
    requires
        lex_lt(a, b),
        lex_lt(b, c),
    ensures
        lex_lt(a, c),
    decreases a.len(),
{
    if a.len() > 0 && b.len() > 0 && c.len() > 0 && a[0] == b[0] && b[0] == c[0] {
        lemma_lex_transitive(a.drop_first(), b.drop_first(), c.drop_first());
    }
}

/// Comparing past a common prefix gives the same answer.
proof fn lemma_lex_skip(a: Seq<u64>, b: Seq<u64>, i: int)
    requires
        0 <= i <= a.len(),
        i <= b.len(),
        a.take(i) == b.take(i),
    ensures
        lex_lt(a, b) == lex_lt(a.skip(i), b.skip(i)),
    decreases i,
{
    if i > 0 {
        assert(a[0] == a.take(i)[0]);
        assert(b[0] == b.take(i)[0]);
        assert(a.drop_first().take(i - 1) =~= a.take(i).drop_first());
        assert(b.drop_first().take(i - 1) =~= b.take(i).drop_first());
        lemma_lex_skip(a.drop_first(), b.drop_first(), i - 1);
        assert(a.drop_first().skip(i - 1) =~= a.skip(i));
        assert(b.drop_first().skip(i - 1) =~= b.skip(i));
    } else {
        assert(a.skip(0) =~= a);
        assert(b.skip(0) =~= b);
    }
}

/// Three-way comparison of two code-point sequences: negative, zero or
/// positive as `a` comes before, equals or comes after `b`.
pub fn compare_codes(a: &Vec<u64>, b: &Vec<u64>) -> (r: i8)
    ensures
        r < 0 <==> lex_lt(a@, b@),
        r == 0 <==> a@ == b@,
        r > 0 <==> lex_lt(b@, a@),
{
    proof {
        lemma_lex_trichotomy(a@, b@);
    }
    let mut i: usize = 0;
    while i < a.len() && i < b.len()
        invariant
            0 <= i <= a.len(),
            i <= b.len(),
            a@.take(i as int) == b@.take(i as int),
        decreases a.len() - i,
    {
        if a[i] != b[i] {
            proof {
                lemma_lex_skip(a@, b@, i as int);
                lemma_lex_skip(b@, a@, i as int);
                assert(a@.skip(i as int)[0] == a@[i as int]);
                assert(b@.skip(i as int)[0] == b@[i as int]);
            }
            if a[i] < b[i] {
                return -1;
            } else {
                return 1;
            }
        }
        proof {
            assert(a@.take(i + 1) =~= a@.take(i as int).push(a@[i as int]));
            assert(b@.take(i + 1) =~= b@.take(i as int).push(b@[i as int]));
        }
        i = i + 1;
    }
    proof {
        lemma_lex_skip(a@, b@, i as int);
        lemma_lex_skip(b@, a@, i as int);
        if a.len() == b.len() {
            assert(a@ =~= a@.take(i as int));
            assert(b@ =~= b@.take(i as int));
        }
    }
    if a.len() < b.len() {
        -1
    } else if a.len() > b.len() {
        1
    } else {
        0
    }
}

} // verus!

verus! {

/// `needle` occurs in `hay` starting at position `i`.
pub open spec fn occurs_at(hay: Seq<u64>, needle: Seq<u64>, i: int) -> bool {
    0 <= i && i + needle.len() <= hay.len() && hay.subrange(i, i + needle.len()) == needle
}

/// `needle` occurs somewhere in `hay` (the empty sequence occurs everywhere).
pub open spec fn contains_seq(hay: Seq<u64>, needle: Seq<u64>) -> bool {
    exists|i: int| #[trigger] occurs_at(hay, needle, i)
}

fn matches_at(hay: &Vec<u64>, needle: &Vec<u64>, start: usize) -> (r: bool)
    requires
        start + needle.len() <= hay.len(),
    ensures
        r == occurs_at(hay@, needle@, start as int),
{
    let mut j: usize = 0;
    while j < needle.len()
        invariant
            start + needle.len() <= hay.len(),
            0 <= j <= needle.len(),
            forall|k: int| 0 <= k < j ==> hay@[start + k] == needle@[k],
        decreases needle.len() - j,
    {
        if hay[start + j] != needle[j] {
            proof {
                assert(hay@.subrange(start as int, start + needle.len())[j as int] != needle@[j as int]);
            }
            return false;
        }
        j = j + 1;
    }
    proof {
        assert(hay@.subrange(start as int, start + needle.len()) =~= needle@);
    }
    true
}

/// Whether `needle` occurs in `hay` (substring search).
pub fn contains_codes(hay: &Vec<u64>, needle: &Vec<u64>) -> (r: bool)
    ensures
        r == contains_seq(hay@, needle@),
{
    if needle.len() > hay.len() {
        assert forall|i: int| !occurs_at(hay@, needle@, i) by {}
        return false;
    }
    let last = hay.len() - needle.len();
    let mut i: usize = 0;
    loop
        invariant
            last == hay.len() - needle.len(),
            needle.len() <= hay.len(),
            0 <= i <= last,
            forall|k: int| 0 <= k < i ==> !occurs_at(hay@, needle@, k),
        ensures
            forall|k: int| 0 <= k <= last ==> !occurs_at(hay@, needle@, k),
        decreases last - i,
    {
        if matches_at(hay, needle, i) {
            return true;
        }
        if i == last {
            break;
        }
        i = i + 1;
    }
    assert forall|k: int| !occurs_at(hay@, needle@, k) by {
        if 0 <= k <= last {
        }
    }
    false
}

/// What `str::to_lowercase` returns for a string with these characters.
pub uninterp spec fn lowercased(s: Seq<char>) -> Seq<char>;

/// Calls `str::to_lowercase`, whose result (Unicode lowercase mapping) is a
/// function of the characters of `s` alone; it is named `lowercased`.
#[verifier::external_body]
pub(crate) fn lowercase(s: &str) -> (res: String)
    ensures
        res@ == lowercased(s@),
{
    s.to_lowercase()
}

/// The key by which text is compared without regard to case: the code points
/// of its lowercase form.
pub open spec fn fold_key(s: Seq<char>) -> Seq<u64> {
    codes(lowercased(s))
}

/// Computes `fold_key(s@)`.
pub fn folded_codes(s: &str) -> (res: Vec<u64>)
    ensures
        res@ == fold_key(s@),
{
    let lower = lowercase(s);
    code_points(lower.as_str())
}

/// Whether two string slices hold the same characters (`==` on `str`),
/// compared byte by byte on their UTF-8 encodings.
pub(crate) fn same_text(a: &str, b: &str) -> (res: bool)
    ensures
        res == (a@ == b@),
{
    let x = a.as_bytes();
    let y = b.as_bytes();
    proof {
        vstd::utf8::encode_utf8_decode_utf8(a@);
        vstd::utf8::encode_utf8_decode_utf8(b@);
    }
    if x.len() != y.len() {
        return false;
    }
    let mut i: usize = 0;
    while i < x.len()
        invariant
            x@ == encode_utf8(a@),
            y@ == encode_utf8(b@),
            x@.len() == y@.len(),
            i <= x@.len(),
            forall|j: int| 0 <= j < i ==> x@[j] == y@[j],
        decreases x@.len() - i,
    {
        if x[i] != y[i] {
            return false;
        }
        i = i + 1;
    }
    proof {
        assert(x@ =~= y@);
    }
    true
}

/// Calls `String::push`, which appends one character.
#[verifier::external_body]
pub(crate) fn push_char(s: &mut String, c: char)
    ensures
        final(s)@ == old(s)@.push(c),
{
    s.push(c)
}

} // verus!

verus! {

/// The digit character for `d` in bases up to sixteen: `0`-`9`, then `A`-`F`.
pub open spec fn digit_char(d: int) -> char {
    if d < 10 {
        (48 + d) as char
    } else {
        (55 + d) as char
    }
}

/// The digits of `v` in base `base`, most significant first, without leading
/// zeros (zero is the single digit `0`).
pub open spec fn digits(v: nat, base: nat) -> Seq<char>
    decreases v,
{
    if base < 2 || v < base {
        seq![digit_char(v as int)]
    } else {
        proof {
            vstd::arithmetic::div_mod::lemma_div_decreases(v as int, base as int);
        }
        digits(v / base, base).push(digit_char((v % base) as int))
    }
}

/// `s` with zeros in front up to `width` characters.
pub open spec fn zero_pad(s: Seq<char>, width: nat) -> Seq<char> {
    if s.len() >= width {
        s
    } else {
        Seq::new((width - s.len()) as nat, |i: int| '0') + s
    }
}

/// Upper-case hexadecimal of `v`, zero-padded to `width` (Rust's `{:0width$X}`).
pub open spec fn hex_padded(v: nat, width: nat) -> Seq<char> {
    zero_pad(digits(v, 16), width)
}

/// Decimal of `v` (Rust's `{}` for an unsigned integer).
pub open spec fn decimal(v: nat) -> Seq<char> {
    digits(v, 10)
}

fn digit_of(d: u64) -> (c: char)
    requires
        d < 16,
    ensures
        c == digit_char(d as int),
{
    if d < 10 {
        ((d + 48) as u8) as char
    } else {
        ((d + 55) as u8) as char
    }
}

/// Appends the digits of `v` in base `base`.
pub fn push_digits(out: &mut String, v: u64, base: u64)
    requires
        2 <= base <= 16,
    ensures
        final(out)@ == old(out)@ + digits(v as nat, base as nat),
    decreases v,
{
    if v >= base {
        proof {
            vstd::arithmetic::div_mod::lemma_div_decreases(v as int, base as int);
        }
        push_digits(out, v / base, base);
    }
    let c = digit_of(v % base);
    push_char(out, c);
    proof {
        if v < base {
            vstd::arithmetic::div_mod::lemma_small_mod(v as nat, base as nat);
        }
        assert(out@ =~= old(out)@ + digits(v as nat, base as nat));
    }
}

/// Appends `v` in upper-case hexadecimal, zero-padded to `width` characters.
pub fn push_hex_padded(out: &mut String, v: u64, width: usize)
    ensures
        final(out)@ == old(out)@ + hex_padded(v as nat, width as nat),
{
    let mut hex = String::new();
    push_digits(&mut hex, v, 16);
    assert(hex@ =~= digits(v as nat, 16));
    let n = hex.as_str().unicode_len();
    let ghost start = out@;
    if n < width {
        let mut k: usize = n;
        while k < width
            invariant
                n <= k <= width,
                out@ == start + Seq::new((k - n) as nat, |i: int| '0'),
            decreases width - k,
        {
            push_char(out, '0');
            k = k + 1;
            proof {
                assert(out@ =~= start + Seq::new((k - n) as nat, |i: int| '0'));
            }
        }
    }
    out.append(hex.as_str());
    proof {
        assert(out@ =~= start + hex_padded(v as nat, width as nat));
    }
}

/// Appends `v` in decimal.
pub fn push_decimal(out: &mut String, v: u64)
    ensures
        final(out)@ == old(out)@ + decimal(v as nat),
{
    push_digits(out, v, 10);
}

} // verus!

verus! {

/// `parts` joined with `sep` between neighbours (`[String]::join`).
pub open spec fn join(parts: Seq<Seq<char>>, sep: Seq<char>) -> Seq<char>
    decreases parts.len(),
{
    if parts.len() == 0 {
        Seq::empty()
    } else if parts.len() == 1 {
        parts[0]
    } else {
        join(parts.drop_last(), sep) + sep + parts.last()
    }
}

/// The character views of some strings.
pub open spec fn texts(v: Seq<String>) -> Seq<Seq<char>> {
    v.map_values(|s: String| s@)
}

/// Joins `parts` with `sep` between neighbours.
pub fn join_texts(parts: &Vec<String>, sep: &str) -> (r: String)
    ensures
        r@ == join(texts(parts@), sep@),
{
    let mut r = String::new();
    let ghost all = texts(parts@);
    let mut k: usize = 0;
    proof {
        assert(all.take(0) =~= Seq::<Seq<char>>::empty());
    }
    while k < parts.len()
        invariant
            all == texts(parts@),
            0 <= k <= parts@.len(),
            r@ == join(all.take(k as int), sep@),
        decreases parts.len() - k,
    {
        proof {
            assert(all.take(k + 1).drop_last() =~= all.take(k as int));
            assert(all.take(k + 1).last() == parts@[k as int]@);
        }
        if k > 0 {
            r.append(sep);
        } else {
            assert(all.take(1) =~= seq![parts@[0]@]);
            assert(r@ =~= Seq::<char>::empty());
        }
        r.append(parts[k].as_str());
        proof {
            if k == 0 {
                assert(r@ =~= join(all.take(1), sep@));
            }
        }
        k = k + 1;
    }
    proof {
        assert(all.take(k as int) =~= all);
    }
    r
}

/// A string holding the characters of `s`.
pub fn owned(s: &str) -> (r: String)
    ensures
        r@ == s@,
{
    let mut r = String::new();
    r.append(s);
    assert(r@ =~= s@);
    r
}

/// Upper-case hexadecimal of `v`, zero-padded to `width` characters.
pub fn hex_text(v: u64, width: usize) -> (r: String)
    ensures
        r@ == hex_padded(v as nat, width as nat),
{
    let mut r = String::new();
    push_hex_padded(&mut r, v, width);
    assert(r@ =~= hex_padded(v as nat, width as nat));
    r
}

/// Decimal of `v`.
pub fn decimal_text(v: u64) -> (r: String)
    ensures
        r@ == decimal(v as nat),
{
    let mut r = String::new();
    push_decimal(&mut r, v);
    assert(r@ =~= decimal(v as nat));
    r
}

} // verus!

verus! {

/// `a` followed by `b`.
pub fn text2(a: &str, b: &str) -> (r: String)
    ensures
        r@ == a@ + b@,
{
    let mut r = owned(a);
    r.append(b);
    r
}

/// `a`, `b` and `c` one after another.
pub fn text3(a: &str, b: &str, c: &str) -> (r: String)
    ensures
        r@ == a@ + b@ + c@,
{
    let mut r = text2(a, b);
    r.append(c);
    r
}

/// `a`, `b`, `c` and `d` one after another.
pub fn text4(a: &str, b: &str, c: &str, d: &str) -> (r: String)
    ensures
        r@ == a@ + b@ + c@ + d@,
{
    let mut r = text3(a, b, c);
    r.append(d);
    r
}

/// `a` to `e` one after another.
pub fn text5(a: &str, b: &str, c: &str, d: &str, e: &str) -> (r: String)
    ensures
        r@ == a@ + b@ + c@ + d@ + e@,
{
    let mut r = text4(a, b, c, d);
    r.append(e);
    r
}

} // verus!
