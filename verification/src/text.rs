//! Byte- and text-level helpers used by the blob parser: splitting on a
//! separator byte, trimming white space, comparing strings and writing
//! decimal numbers.
use vstd::prelude::*;
use vstd::string::*;

verus! {

/// Three-byte UTF-8 encodings of the white-space characters
/// U+1680, U+2000..=U+200A, U+2028, U+2029, U+202F, U+205F and U+3000.
pub open spec fn is_space3(x: u8, y: u8, z: u8) -> bool {
    ||| (x == 0xe1 && y == 0x9a && z == 0x80)
    ||| (x == 0xe2 && y == 0x80 && ((0x80 <= z && z <= 0x8a) || z == 0xa8 || z == 0xa9 || z
        == 0xaf))
    ||| (x == 0xe2 && y == 0x81 && z == 0x9f)
    ||| (x == 0xe3 && y == 0x80 && z == 0x80)
}

/// One-byte white space: U+0009..=U+000D and U+0020.
pub open spec fn is_space1(x: u8) -> bool {
    (0x09 <= x && x <= 0x0d) || x == 0x20
}

/// Two-byte white space: U+0085 and U+00A0.
pub open spec fn is_space2(x: u8, y: u8) -> bool {
    x == 0xc2 && (y == 0x85 || y == 0xa0)
}

/// Number of bytes of the white-space character that `b` starts with
/// (0 when it starts with none). The characters are those for which
/// `char::is_whitespace` holds, in their UTF-8 encoding.
pub open spec fn leading_space_len(b: Seq<u8>) -> nat {
    if b.len() >= 1 && is_space1(b[0]) {
        1
    } else if b.len() >= 2 && is_space2(b[0], b[1]) {
        2
    } else if b.len() >= 3 && is_space3(b[0], b[1], b[2]) {
        3
    } else {
        0
    }
}

/// Number of bytes of the white-space character that `b` ends with (0 when none).
pub open spec fn trailing_space_len(b: Seq<u8>) -> nat {
    let n = b.len() as int;
    if n >= 1 && is_space1(b[n - 1]) {
        1
    } else if n >= 2 && is_space2(b[n - 2], b[n - 1]) {
        2
    } else if n >= 3 && is_space3(b[n - 3], b[n - 2], b[n - 1]) {
        3
    } else {
        0
    }
}

/// `b` without its leading white space.
pub open spec fn trim_start_spaces(b: Seq<u8>) -> Seq<u8>
    decreases b.len(),
{
    let k = leading_space_len(b);
    if k == 0 {
        b
    } else {
        trim_start_spaces(b.skip(k as int))
    }
}

/// `b` without its trailing white space.
pub open spec fn trim_end_spaces(b: Seq<u8>) -> Seq<u8>
    decreases b.len(),
{
    let k = trailing_space_len(b);
    if k == 0 {
        b
    } else {
        trim_end_spaces(b.take(b.len() - k))
    }
}

/// The UTF-8 text `b` with white space removed from both ends, as `str::trim` does.
pub open spec fn trim_spaces(b: Seq<u8>) -> Seq<u8> {
    trim_end_spaces(trim_start_spaces(b))
}

fn is_space1_at(b: &[u8], i: usize) -> (r: bool)
    requires
        i < b@.len(),
    ensures
        r == is_space1(b@[i as int]),
{
    let x = b[i];
    (0x09 <= x && x <= 0x0d) || x == 0x20
}

fn is_space2_at(b: &[u8], i: usize) -> (r: bool)
    requires
        i + 1 < b@.len(),
    ensures
        r == is_space2(b@[i as int], b@[i + 1]),
{
    b[i] == 0xc2 && (b[i + 1] == 0x85 || b[i + 1] == 0xa0)
}

fn is_space3_at(b: &[u8], i: usize) -> (r: bool)
    requires
        i + 2 < b@.len(),
    ensures
        r == is_space3(b@[i as int], b@[i + 1], b@[i + 2]),
{
    let x = b[i];
    let y = b[i + 1];
    let z = b[i + 2];
    (x == 0xe1 && y == 0x9a && z == 0x80) || (x == 0xe2 && y == 0x80 && ((0x80 <= z && z <= 0x8a)
        || z == 0xa8 || z == 0xa9 || z == 0xaf)) || (x == 0xe2 && y == 0x81 && z == 0x9f) || (x
        == 0xe3 && y == 0x80 && z == 0x80)
}

/// Length of the white-space character at `b[lo..hi]`'s start.
fn leading_space_len_at(b: &[u8], lo: usize, hi: usize) -> (k: usize)
    requires
        lo <= hi <= b@.len(),
    ensures
        k == leading_space_len(b@.subrange(lo as int, hi as int)),
{
    if hi - lo >= 1 && is_space1_at(b, lo) {
        1
    } else if hi - lo >= 2 && is_space2_at(b, lo) {
        2
    } else if hi - lo >= 3 && is_space3_at(b, lo) {
        3
    } else {
        0
    }
}

/// Length of the white-space character at `b[lo..hi]`'s end.
fn trailing_space_len_at(b: &[u8], lo: usize, hi: usize) -> (k: usize)
    requires
        lo <= hi <= b@.len(),
    ensures
        k == trailing_space_len(b@.subrange(lo as int, hi as int)),
{
    if hi - lo >= 1 && is_space1_at(b, hi - 1) {
        1
    } else if hi - lo >= 2 && is_space2_at(b, hi - 2) {
        2
    } else if hi - lo >= 3 && is_space3_at(b, hi - 3) {
        3
    } else {
        0
    }
}

/// Removes leading and trailing white space from the UTF-8 text `b`.
pub fn trim_bytes(b: &[u8]) -> (res: &[u8])
    ensures
        res@ == trim_spaces(b@),
{
    let n = b.len();
    let mut lo: usize = 0;
    assert(b@.subrange(0, n as int) == b@);
    loop
        invariant
            lo <= n == b@.len(),
            trim_start_spaces(b@) == trim_start_spaces(b@.subrange(lo as int, n as int)),
        ensures
            lo <= n == b@.len(),
            trim_start_spaces(b@) == trim_start_spaces(b@.subrange(lo as int, n as int)),
            leading_space_len(b@.subrange(lo as int, n as int)) == 0,
        decreases n - lo,
    {
        let k = leading_space_len_at(b, lo, n);
        if k == 0 {
            break ;
        }
        proof {
            let s = b@.subrange(lo as int, n as int);
            assert(s.skip(k as int) == b@.subrange(lo + k, n as int));
        }
        lo = lo + k;
    }
    assert(trim_start_spaces(b@.subrange(lo as int, n as int)) == b@.subrange(lo as int, n as int));
    let mut hi: usize = n;
    loop
        invariant
            lo <= hi <= n == b@.len(),
            trim_spaces(b@) == trim_end_spaces(b@.subrange(lo as int, hi as int)),
        ensures
            lo <= hi <= n == b@.len(),
            trim_spaces(b@) == trim_end_spaces(b@.subrange(lo as int, hi as int)),
            trailing_space_len(b@.subrange(lo as int, hi as int)) == 0,
        decreases hi - lo,
    {
        let k = trailing_space_len_at(b, lo, hi);
        if k == 0 {
            break ;
        }
        proof {
            let s = b@.subrange(lo as int, hi as int);
            assert(s.take(s.len() - k) == b@.subrange(lo as int, hi - k));
        }
        hi = hi - k;
    }
    assert(trim_end_spaces(b@.subrange(lo as int, hi as int)) == b@.subrange(lo as int, hi as int));
    &b[lo..hi]
}

/// Splits `b` at every occurrence of `sep`, as `str::split` does with a
/// one-byte pattern: `n` separators give `n + 1` pieces.
pub open spec fn split_bytes(b: Seq<u8>, sep: u8) -> Seq<Seq<u8>>
    decreases b.len(),
{
    if b.len() == 0 {
        seq![Seq::empty()]
    } else {
        let init = split_bytes(b.drop_last(), sep);
        if b.last() == sep {
            init.push(Seq::empty())
        } else {
            init.update(init.len() - 1, init.last().push(b.last()))
        }
    }
}

/// Number of occurrences of `sep` in `b`.
pub open spec fn count_byte(b: Seq<u8>, sep: u8) -> nat
    decreases b.len(),
{
    if b.len() == 0 {
        0
    } else {
        count_byte(b.drop_last(), sep) + if b.last() == sep {
            1nat
        } else {
            0nat
        }
    }
}

/// There is always one piece more than there are separators.
pub proof fn lemma_split_len(b: Seq<u8>, sep: u8)
    ensures
        split_bytes(b, sep).len() == count_byte(b, sep) + 1,
    decreases b.len(),
{
    if b.len() > 0 {
        lemma_split_len(b.drop_last(), sep);
    }
}

/// The pieces of `b` between the occurrences of `sep`.
pub fn split_on(b: &[u8], sep: u8) -> (parts: Vec<Vec<u8>>)
    ensures
        parts.deep_view() == split_bytes(b@, sep),
{
    let n = b.len();
    let mut done: Vec<Vec<u8>> = Vec::new();
    let mut current: Vec<u8> = Vec::new();
    let mut i: usize = 0;
    assert(b@.take(0) =~= Seq::<u8>::empty());
    assert(current.deep_view() =~= Seq::<u8>::empty());
    assert(done.deep_view() =~= Seq::<Seq<u8>>::empty());
    assert(done.deep_view().push(current.deep_view()) =~= seq![Seq::<u8>::empty()]);
    while i < n
        invariant
            i <= n == b@.len(),
            done.deep_view().push(current.deep_view()) == split_bytes(b@.take(i as int), sep),
        decreases n - i,
    {
        let ghost before = done.deep_view().push(current.deep_view());
        let ghost cur_before = current.deep_view();
        proof {
            assert(b@.take(i + 1).drop_last() == b@.take(i as int));
            lemma_split_len(b@.take(i as int), sep);
        }
        let ghost done_before = done.deep_view();
        if b[i] == sep {
            let finished = current;
            done.push(finished);
            current = Vec::new();
            assert(done.deep_view() =~= done_before.push(before.last()));
            assert(current.deep_view() =~= Seq::<u8>::empty());
            assert(done.deep_view().push(current.deep_view()) =~= before.push(Seq::empty()));
        } else {
            current.push(b[i]);
            assert(current.deep_view() =~= cur_before.push(b@[i as int]));
            assert(done.deep_view().push(current.deep_view()) =~= before.update(
                before.len() - 1,
                before.last().push(b@[i as int]),
            ));
        }
        i = i + 1;
    }
    assert(b@.take(n as int) == b@);
    let ghost done_before = done.deep_view();
    let ghost last = current.deep_view();
    done.push(current);
    assert(done.deep_view() =~= done_before.push(last));
    done
}

/// Lexicographic order on byte strings, the order of `str` and `[u8]` in std.
pub open spec fn bytes_le(a: Seq<u8>, b: Seq<u8>) -> bool
    decreases a.len(),
{
    if a.len() == 0 {
        true
    } else if b.len() == 0 {
        false
    } else if a[0] != b[0] {
        a[0] < b[0]
    } else {
        bytes_le(a.drop_first(), b.drop_first())
    }
}

/// Whether `a` comes at or before `b` in lexicographic byte order.
pub fn bytes_less_eq(a: &[u8], b: &[u8]) -> (r: bool)
    ensures
        r == bytes_le(a@, b@),
{
    let mut i: usize = 0;
    assert(a@.skip(0) == a@ && b@.skip(0) == b@);
    while i < a.len() && i < b.len() && a[i] == b[i]
        invariant
            i <= a@.len(),
            i <= b@.len(),
            bytes_le(a@, b@) == bytes_le(a@.skip(i as int), b@.skip(i as int)),
        decreases a@.len() - i,
    {
        proof {
            assert(a@.skip(i as int).drop_first() == a@.skip(i + 1));
            assert(b@.skip(i as int).drop_first() == b@.skip(i + 1));
        }
        i = i + 1;
    }
    if i == a.len() {
        true
    } else if i == b.len() {
        false
    } else {
        a[i] < b[i]
    }
}

/// Every byte string comes at or before itself.
pub proof fn lemma_bytes_le_reflexive(a: Seq<u8>)
    ensures
        bytes_le(a, a),
    decreases a.len(),
{
    if a.len() > 0 {
        lemma_bytes_le_reflexive(a.drop_first());
    }
}

/// The byte order is transitive.
pub proof fn lemma_bytes_le_transitive(a: Seq<u8>, b: Seq<u8>, c: Seq<u8>)
    requires
        bytes_le(a, b),
        bytes_le(b, c),
    ensures
        bytes_le(a, c),
    decreases a.len(),
{
    if a.len() > 0 && b.len() > 0 && c.len() > 0 && a[0] == b[0] && b[0] == c[0] {
        lemma_bytes_le_transitive(a.drop_first(), b.drop_first(), c.drop_first());
    }
}

/// The byte order is total: of two byte strings one comes at or before the other.
pub proof fn lemma_bytes_le_total(a: Seq<u8>, b: Seq<u8>)
    ensures
        bytes_le(a, b) || bytes_le(b, a),
    decreases a.len(),
{
    if a.len() > 0 && b.len() > 0 && a[0] == b[0] {
        lemma_bytes_le_total(a.drop_first(), b.drop_first());
    }
}

/// The byte order is lexicographic: where two byte strings first differ,
/// the smaller byte decides.
pub proof fn lemma_bytes_le_first_difference(a: Seq<u8>, b: Seq<u8>, i: int)
    requires
        0 <= i < a.len(),
        i < b.len(),
        a.take(i) == b.take(i),
        a[i] != b[i],
    ensures
        bytes_le(a, b) == (a[i] < b[i]),
    decreases i,
{
    if i > 0 {
        assert(a[0] == a.take(i)[0] && b[0] == b.take(i)[0]);
        assert(a.drop_first().take(i - 1) =~= a.take(i).drop_first());
        assert(b.drop_first().take(i - 1) =~= b.take(i).drop_first());
        lemma_bytes_le_first_difference(a.drop_first(), b.drop_first(), i - 1);
    }
}

/// A prefix comes at or before every extension of it, and a proper
/// extension never comes at or before its prefix.
pub proof fn lemma_bytes_le_prefix(a: Seq<u8>, c: Seq<u8>)
    ensures
        bytes_le(a, a + c),
        c.len() > 0 ==> !bytes_le(a + c, a),
    decreases a.len(),
{
    if a.len() > 0 {
        assert((a + c).drop_first() =~= a.drop_first() + c);
        assert((a + c)[0] == a[0]);
        lemma_bytes_le_prefix(a.drop_first(), c);
    }
}

/// The decimal digit character for `d < 10`.
pub open spec fn digit_char(d: nat) -> char {
    (48 + d) as char
}

/// The decimal writing of `n`, as `Display` writes an unsigned integer.
pub open spec fn decimal(n: nat) -> Seq<char>
    decreases n,
{
    if n < 10 {
        seq![digit_char(n)]
    } else {
        decimal(n / 10).push(digit_char(n % 10))
    }
}

fn push_decimal(s: &mut String, n: usize)
    ensures
        final(s)@ == old(s)@ + decimal(n as nat),
    decreases n,
{
    if n >= 10 {
        push_decimal(s, n / 10);
    }
    let digits = "0123456789";
    proof {
        reveal_strlit("0123456789");
    }
    let d = n % 10;
    let one = digits.substring_char(d, d + 1);
    assert(one@ =~= seq![digit_char(d as nat)]);
    s.append(one);
    assert(final(s)@ =~= old(s)@ + decimal(n as nat));
}

/// Writes `n` in decimal.
pub fn decimal_string(n: usize) -> (res: String)
    ensures
        res@ == decimal(n as nat),
{
    let mut s = String::new();
    push_decimal(&mut s, n);
    assert(s@ =~= decimal(n as nat));
    s
}

/// Whether two strings hold the same characters.
pub fn str_equal(a: &str, b: &str) -> (r: bool)
    ensures
        r == (a@ == b@),
{
    let n = a.unicode_len();
    if n != b.unicode_len() {
        return false;
    }
    let mut i: usize = 0;
    while i < n
        invariant
            i <= n == a@.len() == b@.len(),
            forall|j: int| 0 <= j < i ==> a@[j] == b@[j],
        decreases n - i,
    {
        if a.get_char(i) != b.get_char(i) {
            return false;
        }
        i = i + 1;
    }
    assert(a@ =~= b@);
    true
}

/// Appending bytes that hold no separator extends the last piece.
pub proof fn lemma_split_append_plain(a: Seq<u8>, x: Seq<u8>, sep: u8)
    requires
        forall|i: int| 0 <= i < x.len() ==> x[i] != sep,
    ensures
        split_bytes(a + x, sep) == split_bytes(a, sep).update(
            split_bytes(a, sep).len() - 1,
            split_bytes(a, sep).last() + x,
        ),
    decreases x.len(),
{
    lemma_split_len(a, sep);
    if x.len() == 0 {
        assert(a + x =~= a);
        assert(split_bytes(a, sep).last() + x =~= split_bytes(a, sep).last());
        assert(split_bytes(a, sep).update(split_bytes(a, sep).len() - 1, split_bytes(a, sep).last())
            =~= split_bytes(a, sep));
    } else {
        let y = x.drop_last();
        assert((a + x).drop_last() =~= a + y);
        assert((a + x).last() == x.last());
        lemma_split_append_plain(a, y, sep);
        let s = split_bytes(a, sep);
        assert((s.last() + y).push(x.last()) =~= s.last() + x);
        assert(s.update(s.len() - 1, s.last() + y).update(s.len() - 1, (s.last() + y).push(x.last()))
            =~= s.update(s.len() - 1, s.last() + x));
    }
}

/// Appending a separator starts a new, empty piece.
pub proof fn lemma_split_append_sep(a: Seq<u8>, sep: u8)
    ensures
        split_bytes(a.push(sep), sep) == split_bytes(a, sep).push(Seq::empty()),
{
    assert(a.push(sep).drop_last() =~= a);
}

} // verus!
