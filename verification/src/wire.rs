//! Low-level wire primitives of the structured binary key/keyset schema:
//! base-128 varints and tagged fields, with byte-exact serializers and
//! parsers proved inverse to each other.
use vstd::prelude::*;

verus! {

/// The base-128 little-endian-group encoding of `n`, one continuation
/// bit per byte.
pub open spec fn varint(n: nat) -> Seq<u8>
    decreases n,
{
    if n < 0x80 {
        seq![n as u8]
    } else {
        seq![(0x80 + n % 0x80) as u8] + varint(n / 0x80)
    }
}

/// Reads a varint at `i`, allowing at most `fuel` bytes.
pub open spec fn parse_varint_rec(s: Seq<u8>, i: int, fuel: nat) -> Option<(nat, int)>
    decreases fuel,
{
    if fuel == 0 || i < 0 || i >= s.len() {
        None
    } else if s[i] < 0x80 {
        Some((s[i] as nat, i + 1))
    } else {
        match parse_varint_rec(s, i + 1, (fuel - 1) as nat) {
            Some((m, j)) => Some((((s[i] - 0x80) as nat + 0x80 * m), j)),
            None => None,
        }
    }
}

/// Reads a varint at `i`; the wire schema caps a varint at ten bytes.
pub open spec fn parse_varint_at(s: Seq<u8>, i: int) -> Option<(nat, int)> {
    parse_varint_rec(s, i, 10)
}

/// 128 raised to `k`.
pub open spec fn pow128(k: nat) -> nat
    decreases k,
{
    if k == 0 {
        1
    } else {
        128 * pow128((k - 1) as nat)
    }
}

/// A value below `pow128(k)` encodes in at most `k` bytes.
pub proof fn lemma_varint_len_bound(n: nat, k: nat)
    requires
        k >= 1,
        n < pow128(k),
    ensures
        varint(n).len() <= k,
    decreases k,
{
    if n >= 0x80 {
        assert(pow128(k) == 128 * pow128((k - 1) as nat));
        lemma_varint_len_bound(n / 0x80, (k - 1) as nat);
    }
}

/// A `u64` value encodes in at most ten bytes.
pub proof fn lemma_varint_len_u64(n: nat)
    requires
        n <= u64::MAX,
    ensures
        1 <= varint(n).len() <= 10,
{
    assert(pow128(10) == 0x40_0000_0000_0000_0000) by {
        reveal_with_fuel(pow128, 11);
    }
    lemma_varint_len_bound(n, 10);
}

/// A successful varint parse moves forward and stays inside the input.
pub proof fn lemma_parse_varint_rec_advances(s: Seq<u8>, i: int, fuel: nat)
    ensures
        parse_varint_rec(s, i, fuel) matches Some((_, j)) ==> i < j <= s.len(),
    decreases fuel,
{
    if fuel > 0 && 0 <= i < s.len() && s[i] >= 0x80 {
        lemma_parse_varint_rec_advances(s, i + 1, (fuel - 1) as nat);
    }
}

/// Parsing reads back exactly what `varint` wrote, wherever it stands
/// in a larger buffer.
pub proof fn lemma_parse_varint_rec_of_ser(s: Seq<u8>, i: int, n: nat, fuel: nat)
    requires
        0 <= i,
        i + varint(n).len() <= s.len(),
        s.subrange(i, i + varint(n).len()) == varint(n),
        varint(n).len() <= fuel,
    ensures
        parse_varint_rec(s, i, fuel) == Some((n, i + varint(n).len())),
    decreases n,
{
    let v = varint(n);
    assert(s[i] == v[0]);
    if n < 0x80 {
        assert(v =~= seq![n as u8]);
    } else {
        let t = varint(n / 0x80);
        assert(v =~= seq![(0x80 + n % 0x80) as u8] + t);
        assert(s[i] == (0x80 + n % 0x80) as u8);
        assert(s.subrange(i + 1, i + 1 + t.len()) =~= v.subrange(1, v.len() as int));
        assert(v.subrange(1, v.len() as int) =~= t);
        lemma_parse_varint_rec_of_ser(s, i + 1, n / 0x80, (fuel - 1) as nat);
        assert((s[i] - 0x80) as nat + 0x80 * (n / 0x80) == n % 0x80 + 0x80 * (n / 0x80));
        assert(n % 0x80 + 0x80 * (n / 0x80) == n) by (nonlinear_arith);
    }
}

/// As `lemma_parse_varint_rec_of_ser`, for the ten-byte-capped parser
/// and a value that fits a `u64`.
pub proof fn lemma_parse_varint_of_ser(s: Seq<u8>, i: int, n: nat)
    requires
        0 <= i,
        n <= u64::MAX,
        i + varint(n).len() <= s.len(),
        s.subrange(i, i + varint(n).len()) == varint(n),
    ensures
        parse_varint_at(s, i) == Some((n, i + varint(n).len())),
{
    lemma_varint_len_u64(n);
    lemma_parse_varint_rec_of_ser(s, i, n, 10);
}

/// Appends the varint encoding of `n` to `buf`.
pub fn write_varint(buf: &mut Vec<u8>, n: u64)
    ensures
        final(buf)@ == old(buf)@ + varint(n as nat),
    decreases n,
{
    if n < 0x80 {
        buf.push(n as u8);
        assert(final(buf)@ =~= old(buf)@ + varint(n as nat));
    } else {
        let b: u8 = (0x80 + (n % 0x80)) as u8;
        buf.push(b);
        write_varint(buf, n / 0x80);
        assert(final(buf)@ =~= old(buf)@ + varint(n as nat));
    }
}

/// Reads a varint with at most `fuel` bytes; `None` exactly where the
/// parse fails or the value does not fit a `u64`.
fn read_varint_rec(s: &[u8], i: usize, fuel: u8) -> (r: Option<(u64, usize)>)
    ensures
        r matches Some((v, j)) ==> parse_varint_rec(s@, i as int, fuel as nat) == Some((
            v as nat,
            j as int,
        )) && i < j <= s@.len(),
        r is None ==> match parse_varint_rec(s@, i as int, fuel as nat) {
            Some((n, _)) => n > u64::MAX,
            None => true,
        },
    decreases fuel,
{
    if fuel == 0 || i >= s.len() {
        None
    } else {
        let b: u8 = s[i];
        if b < 0x80 {
            Some((b as u64, i + 1))
        } else {
            match read_varint_rec(s, i + 1, fuel - 1) {
                Some((m, j)) => {
                    if m <= u64::MAX / 0x80 {
                        assert((b - 0x80) as nat + 0x80 * (m as nat) <= u64::MAX) by (nonlinear_arith)
                            requires
                                m <= u64::MAX / 0x80,
                                b >= 0x80,
                        ;
                        Some(((b - 0x80) as u64 + 0x80 * m, j))
                    } else {
                        assert((b - 0x80) as nat + 0x80 * (m as nat) > u64::MAX) by (nonlinear_arith)
                            requires
                                m > u64::MAX / 0x80,
                                b >= 0x80,
                        ;
                        None
                    }
                },
                None => None,
            }
        }
    }
}

/// Reads a ten-byte-capped varint at `i`; `None` exactly where the
/// capped parse fails or the value does not fit a `u64`.
pub fn read_varint(s: &[u8], i: usize) -> (r: Option<(u64, usize)>)
    ensures
        r matches Some((v, j)) ==> parse_varint_at(s@, i as int) == Some((v as nat, j as int))
            && i < j <= s@.len(),
        r is None ==> match parse_varint_at(s@, i as int) {
            Some((n, _)) => n > u64::MAX,
            None => true,
        },
{
    read_varint_rec(s, i, 10)
}

/// A scalar field: tag byte then varint value, omitted when the value
/// is zero, as the canonical schema encoding prescribes.
pub open spec fn ser_field_varint(tag: u8, v: nat) -> Seq<u8> {
    if v == 0 {
        seq![]
    } else {
        seq![tag] + varint(v)
    }
}

/// A bytes field: tag byte, length varint, contents; omitted when empty.
pub open spec fn ser_field_bytes(tag: u8, b: Seq<u8>) -> Seq<u8> {
    if b.len() == 0 {
        seq![]
    } else {
        seq![tag] + varint(b.len()) + b
    }
}

/// An embedded-message field, always present: tag byte, length varint,
/// the serialized message.
pub open spec fn ser_field_msg(tag: u8, body: Seq<u8>) -> Seq<u8> {
    seq![tag] + varint(body.len()) + body
}

/// Reads a scalar field tagged `tag` at `i`; an absent field reads as
/// zero without advancing.
pub open spec fn parse_field_varint(s: Seq<u8>, i: int, tag: u8) -> Option<(nat, int)> {
    if 0 <= i < s.len() && s[i] == tag {
        parse_varint_at(s, i + 1)
    } else {
        Some((0, i))
    }
}

/// Reads a bytes field tagged `tag` at `i`; an absent field reads as
/// empty without advancing.
pub open spec fn parse_field_bytes(s: Seq<u8>, i: int, tag: u8) -> Option<(Seq<u8>, int)> {
    if 0 <= i < s.len() && s[i] == tag {
        match parse_varint_at(s, i + 1) {
            Some((len, j)) => if j + len <= s.len() {
                Some((s.subrange(j, j + len), j + len))
            } else {
                None
            },
            None => None,
        }
    } else {
        Some((seq![], i))
    }
}

/// Reads an embedded-message field tagged `tag` at `i`, reporting
/// whether the field was present.
pub open spec fn parse_field_msg(s: Seq<u8>, i: int, tag: u8) -> Option<(Option<Seq<u8>>, int)> {
    if 0 <= i < s.len() && s[i] == tag {
        match parse_varint_at(s, i + 1) {
            Some((len, j)) => if j + len <= s.len() {
                Some((Some(s.subrange(j, j + len)), j + len))
            } else {
                None
            },
            None => None,
        }
    } else {
        Some((None, i))
    }
}

/// Reading a scalar field back from where it was written yields the
/// written value. The side condition keeps an omitted zero from
/// swallowing a following byte that happens to equal the tag.
pub proof fn lemma_parse_field_varint_of_ser(s: Seq<u8>, i: int, tag: u8, v: nat)
    requires
        0 <= i,
        v <= u64::MAX,
        i + ser_field_varint(tag, v).len() <= s.len(),
        s.subrange(i, i + ser_field_varint(tag, v).len()) == ser_field_varint(tag, v),
        v == 0 ==> i == s.len() || s[i] != tag,
    ensures
        parse_field_varint(s, i, tag) == Some((v, i + ser_field_varint(tag, v).len())),
{
    if v != 0 {
        let w = varint(v);
        let f = ser_field_varint(tag, v);
        assert(f =~= seq![tag] + w);
        assert(s[i] == f[0]);
        assert(s.subrange(i + 1, i + 1 + w.len()) =~= f.subrange(1, f.len() as int));
        assert(f.subrange(1, f.len() as int) =~= w);
        lemma_parse_varint_of_ser(s, i + 1, v);
    }
}

/// Reading a bytes field back from where it was written yields the
/// written bytes.
pub proof fn lemma_parse_field_bytes_of_ser(s: Seq<u8>, i: int, tag: u8, b: Seq<u8>)
    requires
        0 <= i,
        b.len() <= u64::MAX,
        i + ser_field_bytes(tag, b).len() <= s.len(),
        s.subrange(i, i + ser_field_bytes(tag, b).len()) == ser_field_bytes(tag, b),
        b.len() == 0 ==> i == s.len() || s[i] != tag,
    ensures
        parse_field_bytes(s, i, tag) == Some((b, i + ser_field_bytes(tag, b).len())),
{
    if b.len() != 0 {
        let w = varint(b.len());
        let f = ser_field_bytes(tag, b);
        assert(f =~= seq![tag] + w + b);
        assert(s[i] == f[0]);
        assert(s.subrange(i + 1, i + 1 + w.len()) =~= f.subrange(1, 1 + w.len() as int));
        assert(f.subrange(1, 1 + w.len() as int) =~= w);
        lemma_parse_varint_of_ser(s, i + 1, b.len());
        let j = i + 1 + w.len();
        assert(s.subrange(j, j + b.len()) =~= f.subrange(1 + w.len() as int, f.len() as int));
        assert(f.subrange(1 + w.len() as int, f.len() as int) =~= b);
    }
}

/// Reading an embedded-message field back from where it was written
/// yields the written body; an absent field reads as `None`.
pub proof fn lemma_parse_field_msg_of_ser(s: Seq<u8>, i: int, tag: u8, body: Option<Seq<u8>>)
    requires
        0 <= i,
        body matches Some(m) ==> m.len() <= u64::MAX,
        i + ser_opt_field_msg(tag, body).len() <= s.len(),
        s.subrange(i, i + ser_opt_field_msg(tag, body).len()) == ser_opt_field_msg(tag, body),
        body is None ==> i == s.len() || s[i] != tag,
    ensures
        parse_field_msg(s, i, tag) == Some((body, i + ser_opt_field_msg(tag, body).len())),
{
    match body {
        None => {},
        Some(m) => {
            let w = varint(m.len());
            let f = ser_field_msg(tag, m);
            assert(ser_opt_field_msg(tag, body) == f);
            assert(f =~= seq![tag] + w + m);
            assert(s[i] == f[0]);
            assert(s.subrange(i + 1, i + 1 + w.len()) =~= f.subrange(1, 1 + w.len() as int));
            assert(f.subrange(1, 1 + w.len() as int) =~= w);
            lemma_parse_varint_of_ser(s, i + 1, m.len());
            let j = i + 1 + w.len();
            assert(s.subrange(j, j + m.len()) =~= f.subrange(1 + w.len() as int, f.len() as int));
            assert(f.subrange(1 + w.len() as int, f.len() as int) =~= m);
        },
    }
}

/// An embedded-message field that may be absent.
pub open spec fn ser_opt_field_msg(tag: u8, body: Option<Seq<u8>>) -> Seq<u8> {
    match body {
        Some(m) => ser_field_msg(tag, m),
        None => seq![],
    }
}

/// Copies a byte vector.
pub fn copy_bytes(v: &Vec<u8>) -> (r: Vec<u8>)
    ensures
        r@ == v@,
{
    vstd::slice::slice_to_vec(v.as_slice())
}

/// Compares two byte strings for equality.
pub fn bytes_eq(a: &[u8], b: &[u8]) -> (r: bool)
    ensures
        r == (a@ == b@),
{
    if a.len() != b.len() {
        assert(a@ != b@);
        return false;
    }
    let n: usize = a.len();
    let mut k: usize = 0;
    while k < n
        invariant
            k <= n,
            n == a@.len() == b@.len(),
            forall|m: int| 0 <= m < k ==> a@[m] == b@[m],
        decreases n - k,
    {
        if a[k] != b[k] {
            return false;
        }
        k = k + 1;
    }
    assert(a@ =~= b@);
    true
}

/// Appends all of `s` to `buf`.
pub fn push_bytes(buf: &mut Vec<u8>, s: &[u8])
    ensures
        final(buf)@ == old(buf)@ + s@,
{
    let mut k: usize = 0;
    while k < s.len()
        invariant
            k <= s@.len(),
            buf@ == old(buf)@ + s@.subrange(0, k as int),
        decreases s@.len() - k,
    {
        buf.push(s[k]);
        assert(buf@ =~= old(buf)@ + s@.subrange(0, k + 1));
        k = k + 1;
    }
    assert(buf@ =~= old(buf)@ + s@);
}

/// Appends a scalar field.
pub fn write_field_varint(buf: &mut Vec<u8>, tag: u8, v: u64)
    ensures
        final(buf)@ == old(buf)@ + ser_field_varint(tag, v as nat),
{
    if v != 0 {
        buf.push(tag);
        write_varint(buf, v);
        assert(buf@ =~= old(buf)@ + ser_field_varint(tag, v as nat));
    } else {
        assert(buf@ =~= old(buf)@ + ser_field_varint(tag, v as nat));
    }
}

/// Appends a bytes field.
pub fn write_field_bytes(buf: &mut Vec<u8>, tag: u8, b: &[u8])
    ensures
        final(buf)@ == old(buf)@ + ser_field_bytes(tag, b@),
{
    if b.len() != 0 {
        buf.push(tag);
        write_varint(buf, b.len() as u64);
        push_bytes(buf, b);
        assert(buf@ =~= old(buf)@ + ser_field_bytes(tag, b@));
    } else {
        assert(buf@ =~= old(buf)@ + ser_field_bytes(tag, b@));
    }
}

/// Appends an embedded-message field.
pub fn write_field_msg(buf: &mut Vec<u8>, tag: u8, body: &[u8])
    ensures
        final(buf)@ == old(buf)@ + ser_field_msg(tag, body@),
{
    buf.push(tag);
    write_varint(buf, body.len() as u64);
    push_bytes(buf, body);
    assert(buf@ =~= old(buf)@ + ser_field_msg(tag, body@));
}

/// Reads a scalar field tagged `tag`; `None` exactly where the parse
/// fails or the value does not fit a `u64`.
pub fn read_field_varint(s: &[u8], i: usize, tag: u8) -> (r: Option<(u64, usize)>)
    requires
        i <= s@.len(),
    ensures
        r matches Some((v, j)) ==> parse_field_varint(s@, i as int, tag) == Some((
            v as nat,
            j as int,
        )) && i <= j <= s@.len(),
        r is None ==> match parse_field_varint(s@, i as int, tag) {
            Some((n, _)) => n > u64::MAX,
            None => true,
        },
{
    if i < s.len() && s[i] == tag {
        read_varint(s, i + 1)
    } else {
        Some((0, i))
    }
}

/// Reads a bytes field tagged `tag`, copying the contents out; `None`
/// exactly where the parse fails.
pub fn read_field_bytes(s: &[u8], i: usize, tag: u8) -> (r: Option<(Vec<u8>, usize)>)
    requires
        i <= s@.len(),
    ensures
        r matches Some((b, j)) ==> parse_field_bytes(s@, i as int, tag) == Some((b@, j as int))
            && i <= j <= s@.len(),
        r is None ==> parse_field_bytes(s@, i as int, tag) is None,
{
    let slen: usize = s.len();
    if i < slen && s[i] == tag {
        match read_varint(s, i + 1) {
            Some((len, j)) => {
                if len <= (slen - j) as u64 {
                    let end: usize = j + (len as usize);
                    let b = vstd::slice::slice_to_vec(vstd::slice::slice_subrange(s, j, end));
                    Some((b, end))
                } else {
                    None
                }
            },
            None => {
                proof {
                    lemma_parse_varint_rec_advances(s@, i as int + 1, 10);
                }
                None
            },
        }
    } else {
        Some((Vec::new(), i))
    }
}

/// Reads an embedded-message field tagged `tag`, returning the window
/// of the body in `s`; `None` exactly where the parse fails.
pub fn read_field_msg(s: &[u8], i: usize, tag: u8) -> (r: Option<(Option<(usize, usize)>, usize)>)
    requires
        i <= s@.len(),
    ensures
        r matches Some((w, j)) ==> i <= j <= s@.len() && match w {
            Some((a, b)) => a <= b <= s@.len() && parse_field_msg(s@, i as int, tag) == Some((
                Some(s@.subrange(a as int, b as int)),
                j as int,
            )),
            None => parse_field_msg(s@, i as int, tag) == Some((None::<Seq<u8>>, j as int)),
        },
        r is None ==> parse_field_msg(s@, i as int, tag) is None,
{
    let slen: usize = s.len();
    if i < slen && s[i] == tag {
        match read_varint(s, i + 1) {
            Some((len, j)) => {
                if len <= (slen - j) as u64 {
                    let end: usize = j + (len as usize);
                    Some((Some((j, end)), end))
                } else {
                    None
                }
            },
            None => {
                proof {
                    lemma_parse_varint_rec_advances(s@, i as int + 1, 10);
                }
                None
            },
        }
    } else {
        Some((None, i))
    }
}

} // verus!
