//! Percent-encoding of object keys and decimal decoding of sizes.
//!
//! Paths are handled as their UTF-8 bytes. Each byte that is reserved in a
//! URL path segment is written as `%XY` (upper-case hex); the separator `/`
//! is kept as it is so that it still delimits segments on the store's side.
use vstd::prelude::*;

verus! {

/// The path separator.
pub const SLASH: u8 = 0x2f;

/// The escape introducer `%`.
pub const PERCENT: u8 = 0x25;

/// True for the bytes that are written escaped: control bytes, space,
/// non-ASCII bytes, `%` itself, and the reserved punctuation
/// `? # [ ] @ ! $ & ' ( ) * + , ; =` together with `" < > ` { }`.
pub open spec fn needs_escape(b: u8) -> bool {
    b <= 0x20 || b >= 0x7f || b == 0x21 || b == 0x22 || b == 0x23 || b == 0x24 || b == 0x25
        || b == 0x26 || b == 0x27 || b == 0x28 || b == 0x29 || b == 0x2a || b == 0x2b || b
        == 0x2c || b == 0x3b || b == 0x3c || b == 0x3d || b == 0x3e || b == 0x3f || b == 0x40
        || b == 0x5b || b == 0x5d || b == 0x60 || b == 0x7b || b == 0x7d
}

/// The upper-case hex digit for a value below 16.
pub open spec fn hex_digit(n: u8) -> u8 {
    if n < 10 {
        (0x30 + n) as u8
    } else {
        (0x41 + n - 10) as u8
    }
}

/// True for `0-9`, `A-F` and `a-f`.
pub open spec fn is_hex(c: u8) -> bool {
    (0x30 <= c && c <= 0x39) || (0x41 <= c && c <= 0x46) || (0x61 <= c && c <= 0x66)
}

/// The value of a hex digit.
pub open spec fn hex_value(c: u8) -> u8 {
    if 0x30 <= c && c <= 0x39 {
        (c - 0x30) as u8
    } else if 0x41 <= c && c <= 0x46 {
        (c - 0x41 + 10) as u8
    } else {
        (c - 0x61 + 10) as u8
    }
}

/// The encoding of one byte: itself, or `%` and two hex digits.
pub open spec fn encode_byte(b: u8) -> Seq<u8> {
    if needs_escape(b) {
        seq![PERCENT, hex_digit(b / 16), hex_digit(b % 16)]
    } else {
        seq![b]
    }
}

/// The percent-encoding of a byte sequence, byte by byte.
pub open spec fn encoded(s: Seq<u8>) -> Seq<u8>
    decreases s.len(),
{
    if s.len() == 0 {
        Seq::empty()
    } else {
        encode_byte(s[0]) + encoded(s.drop_first())
    }
}

/// `p` put in front of the decoded bytes, if there are any.
pub open spec fn prepend(o: Option<Seq<u8>>, p: Seq<u8>) -> Option<Seq<u8>> {
    match o {
        Some(r) => Some(p + r),
        None => None,
    }
}

/// The bytes that a percent-encoded sequence stands for, or `None` when a
/// `%` is not followed by two hex digits.
pub open spec fn decoded(s: Seq<u8>) -> Option<Seq<u8>>
    decreases s.len(),
{
    if s.len() == 0 {
        Some(Seq::empty())
    } else if s[0] == PERCENT {
        if s.len() >= 3 && is_hex(s[1]) && is_hex(s[2]) {
            prepend(
                decoded(s.subrange(3, s.len() as int)),
                seq![(hex_value(s[1]) * 16 + hex_value(s[2])) as u8],
            )
        } else {
            None
        }
    } else {
        prepend(decoded(s.drop_first()), seq![s[0]])
    }
}

proof fn lemma_encoded_concat(a: Seq<u8>, b: Seq<u8>)
    ensures
        encoded(a + b) == encoded(a) + encoded(b),
    decreases a.len(),
{
    if a.len() == 0 {
        assert(a + b =~= b);
        assert(encoded(a) + encoded(b) =~= encoded(b));
    } else {
        lemma_encoded_concat(a.drop_first(), b);
        assert((a + b).drop_first() =~= a.drop_first() + b);
        assert(encoded(a + b) =~= encoded(a) + encoded(b));
    }
}

proof fn lemma_encoded_push(s: Seq<u8>, i: int)
    requires
        0 <= i < s.len(),
    ensures
        encoded(s.take(i + 1)) == encoded(s.take(i)) + encode_byte(s[i]),
{
    assert(s.take(i + 1) =~= s.take(i) + seq![s[i]]);
    lemma_encoded_concat(s.take(i), seq![s[i]]);
    let one = seq![s[i]];
    assert(one.drop_first() =~= Seq::<u8>::empty());
    assert(encoded(one.drop_first()) == Seq::<u8>::empty());
    assert(encoded(one) =~= encode_byte(s[i]));
}

fn hex_digit_exec(n: u8) -> (r: u8)
    requires
        n < 16,
    ensures
        r == hex_digit(n),
{
    if n < 10 {
        0x30 + n
    } else {
        0x41 + n - 10
    }
}

fn is_hex_exec(c: u8) -> (r: bool)
    ensures
        r == is_hex(c),
{
    (0x30 <= c && c <= 0x39) || (0x41 <= c && c <= 0x46) || (0x61 <= c && c <= 0x66)
}

fn hex_value_exec(c: u8) -> (r: u8)
    requires
        is_hex(c),
    ensures
        r == hex_value(c),
        r < 16,
{
    if 0x30 <= c && c <= 0x39 {
        c - 0x30
    } else if 0x41 <= c && c <= 0x46 {
        c - 0x41 + 10
    } else {
        c - 0x61 + 10
    }
}

/// Whether a byte is written escaped.
pub fn needs_escape_exec(b: u8) -> (r: bool)
    ensures
        r == needs_escape(b),
{
    b <= 0x20 || b >= 0x7f || b == 0x21 || b == 0x22 || b == 0x23 || b == 0x24 || b == 0x25
        || b == 0x26 || b == 0x27 || b == 0x28 || b == 0x29 || b == 0x2a || b == 0x2b || b
        == 0x2c || b == 0x3b || b == 0x3c || b == 0x3d || b == 0x3e || b == 0x3f || b == 0x40
        || b == 0x5b || b == 0x5d || b == 0x60 || b == 0x7b || b == 0x7d
}

/// Percent-encodes a path, keeping `/` unescaped.
pub fn encode(path: &[u8]) -> (r: Vec<u8>)
    ensures
        r@ == encoded(path@),
{
    let mut out: Vec<u8> = Vec::new();
    let mut i: usize = 0;
    while i < path.len()
        invariant
            0 <= i <= path@.len(),
            out@ == encoded(path@.take(i as int)),
        decreases path@.len() - i,
    {
        let b = path[i];
        proof {
            lemma_encoded_push(path@, i as int);
        }
        if needs_escape_exec(b) {
            out.push(PERCENT);
            out.push(hex_digit_exec(b / 16));
            out.push(hex_digit_exec(b % 16));
        } else {
            out.push(b);
        }
        assert(out@ =~= encoded(path@.take(i as int)) + encode_byte(b));
        i = i + 1;
    }
    assert(path@.take(path@.len() as int) =~= path@);
    out
}

proof fn lemma_prepend_prepend(o: Option<Seq<u8>>, a: Seq<u8>, b: Seq<u8>)
    ensures
        prepend(prepend(o, a), b) == prepend(o, b + a),
{
    if let Some(r) = o {
        assert(b + (a + r) =~= (b + a) + r);
    }
}

/// Decodes a percent-encoded key back into path bytes; `None` when an escape
/// is malformed.
pub fn decode(key: &[u8]) -> (r: Option<Vec<u8>>)
    ensures
        match r {
            Some(v) => decoded(key@) == Some(v@),
            None => decoded(key@) is None,
        },
{
    let mut out: Vec<u8> = Vec::new();
    let mut i: usize = 0;
    let n = key.len();
    assert(key@.subrange(0, n as int) =~= key@);
    assert(Seq::<u8>::empty() + key@ =~= key@);
    while i < n
        invariant
            n == key@.len(),
            0 <= i <= n,
            decoded(key@) == prepend(decoded(key@.subrange(i as int, n as int)), out@),
        decreases n - i,
    {
        let rest = Ghost(key@.subrange(i as int, n as int));
        let c = key[i];
        if c == PERCENT {
            if n - i > 2 && is_hex_exec(key[i + 1]) && is_hex_exec(key[i + 2]) {
                let hi = hex_value_exec(key[i + 1]);
                let lo = hex_value_exec(key[i + 2]);
                let v: u8 = hi * 16 + lo;
                proof {
                    assert(rest@.subrange(3, rest@.len() as int) =~= key@.subrange(
                        i + 3,
                        n as int,
                    ));
                    lemma_prepend_prepend(
                        decoded(key@.subrange(i + 3, n as int)),
                        seq![v],
                        out@,
                    );
                }
                let before = Ghost(out@);
                out.push(v);
                assert(out@ =~= before@ + seq![v]);
                i = i + 3;
            } else {
                proof {
                    if n - i > 2 {
                        assert(!is_hex(rest@[1]) || !is_hex(rest@[2]));
                    }
                }
                return None;
            }
        } else {
            proof {
                assert(rest@.drop_first() =~= key@.subrange(i + 1, n as int));
                lemma_prepend_prepend(decoded(key@.subrange(i + 1, n as int)), seq![c], out@);
            }
            out.push(c);
            i = i + 1;
        }
    }
    assert(key@.subrange(n as int, n as int) =~= Seq::<u8>::empty());
    assert(out@ + Seq::<u8>::empty() =~= out@);
    Some(out)
}

proof fn lemma_hex_round_trip(b: u8)
    ensures
        is_hex(hex_digit(b / 16)),
        is_hex(hex_digit(b % 16)),
        (hex_value(hex_digit(b / 16)) * 16 + hex_value(hex_digit(b % 16))) as u8 == b,
{
    assert((b / 16) * 16 + b % 16 == b) by (nonlinear_arith);
}

/// Decoding an encoded path gives the path back, for every byte sequence.
pub proof fn lemma_decode_encode(s: Seq<u8>)
    ensures
        decoded(encoded(s)) == Some(s),
    decreases s.len(),
{
    if s.len() == 0 {
    } else {
        let b = s[0];
        let e = encoded(s);
        lemma_decode_encode(s.drop_first());
        if needs_escape(b) {
            lemma_hex_round_trip(b);
            assert(e[0] == PERCENT);
            assert(e.subrange(3, e.len() as int) =~= encoded(s.drop_first()));
            assert(seq![b] + s.drop_first() =~= s);
        } else {
            assert(e.drop_first() =~= encoded(s.drop_first()));
            assert(seq![b] + s.drop_first() =~= s);
        }
    }
}

/// True when every byte is an ASCII decimal digit.
pub open spec fn all_digits(s: Seq<u8>) -> bool {
    forall|i: int| 0 <= i < s.len() ==> 0x30 <= #[trigger] s[i] && s[i] <= 0x39
}

/// The value of a sequence of decimal digits, most significant first.
pub open spec fn digits_value(s: Seq<u8>) -> nat
    decreases s.len(),
{
    if s.len() == 0 {
        0
    } else {
        digits_value(s.drop_last()) * 10 + (s.last() - 0x30) as nat
    }
}

/// What a size string stands for: its value when it is a non-empty run of
/// digits whose value fits in 64 bits, and `None` otherwise.
pub open spec fn size_of_digits(s: Seq<u8>) -> Option<u64> {
    if s.len() > 0 && all_digits(s) && digits_value(s) <= u64::MAX {
        Some(digits_value(s) as u64)
    } else {
        None
    }
}

proof fn lemma_digits_value_grows(s: Seq<u8>, i: int, j: int)
    requires
        0 <= i <= j <= s.len(),
        all_digits(s),
    ensures
        digits_value(s.take(i)) <= digits_value(s.take(j)),
    decreases j - i,
{
    if i < j {
        lemma_digits_value_grows(s, i, j - 1);
        assert(s.take(j).drop_last() =~= s.take(j - 1));
        assert(s.take(j).last() == s[j - 1]);
    }
}

/// Parses an unsigned decimal size. Anything but a non-empty run of digits
/// whose value fits in a `u64` is refused: no input is read as zero by
/// default.
pub fn parse_size(s: &[u8]) -> (r: Option<u64>)
    ensures
        r == size_of_digits(s@),
{
    let n = s.len();
    if n == 0 {
        return None;
    }
    let mut acc: u64 = 0;
    let mut i: usize = 0;
    while i < n
        invariant
            n == s@.len(),
            0 <= i <= n,
            all_digits(s@.take(i as int)),
            acc as nat == digits_value(s@.take(i as int)),
        decreases n - i,
    {
        let c = s[i];
        if c < 0x30 || c > 0x39 {
            assert(!all_digits(s@));
            return None;
        }
        let d: u64 = (c - 0x30) as u64;
        assert(s@.take(i + 1).drop_last() =~= s@.take(i as int));
        assert(all_digits(s@.take(i + 1)));
        if acc > (u64::MAX - d) / 10 {
            proof {
                assert(acc * 10 + d > u64::MAX) by (nonlinear_arith)
                    requires
                        acc > (u64::MAX - d) / 10,
                        d <= 9,
                ;
                if all_digits(s@) {
                    lemma_digits_value_grows(s@, i + 1, n as int);
                    assert(s@.take(n as int) =~= s@);
                }
            }
            return None;
        }
        proof {
            assert(acc * 10 + d <= u64::MAX) by (nonlinear_arith)
                requires
                    acc <= (u64::MAX - d) / 10,
                    d <= 9,
            ;
        }
        acc = acc * 10 + d;
        i = i + 1;
    }
    assert(s@.take(n as int) =~= s@);
    Some(acc)
}

} // verus!
