//! Arrays: a signed 32-bit element count, then the elements; -1 is the absent array.
use vstd::prelude::*;
use crate::codec::{
    BinaryEncoder, Parsed, encoded_as, le_u32, parse_u32, lemma_parse_u32_round_trip, write_u32,
    read_u32, MAX_ARRAY_LENGTH,
};
use crate::status::StatusCode;

verus! {

pub open spec fn views<T: View>(s: Seq<T>) -> Seq<T::V> {
    s.map_values(|x: T| x@)
}

/// The view of an optional array: `None` is the absent array.
pub open spec fn opt_vec_view<T: View>(a: &Option<Vec<T>>) -> Option<Seq<T::V>> {
    match a {
        Some(v) => Some(views(v@)),
        None => None,
    }
}

/// The elements' encodings, one after the other.
pub open spec fn encode_seq<T: BinaryEncoder>(s: Seq<T::V>) -> Seq<u8>
    decreases s.len(),
{
    if s.len() == 0 {
        seq![]
    } else {
        encode_seq::<T>(s.drop_last()) + T::encoding(s.last())
    }
}

pub open spec fn array_encoding<T: BinaryEncoder>(a: Option<Seq<T::V>>) -> Seq<u8> {
    match a {
        None => le_u32(0xffff_ffff),
        Some(s) => le_u32(s.len() as u32) + encode_seq::<T>(s),
    }
}

pub open spec fn all_in_limits<T: BinaryEncoder>(s: Seq<T::V>) -> bool {
    forall|i: int| 0 <= i < s.len() ==> T::in_limits(#[trigger] s[i])
}

pub open spec fn array_in_limits<T: BinaryEncoder>(a: Option<Seq<T::V>>) -> bool {
    match a {
        None => true,
        Some(s) => s.len() <= MAX_ARRAY_LENGTH && all_in_limits::<T>(s),
    }
}

/// Reads `n` elements one after the other.
pub open spec fn parse_seq<T: BinaryEncoder>(s: Seq<u8>, n: nat) -> Parsed<Seq<T::V>>
    decreases n,
{
    if n == 0 {
        Ok((seq![], 0))
    } else {
        match parse_seq::<T>(s, (n - 1) as nat) {
            Err(e) => Err(e),
            Ok((xs, k)) => match T::parse(s.skip(k as int)) {
                Err(e) => Err(e),
                Ok((x, m)) => Ok((xs.push(x), k + m)),
            },
        }
    }
}

pub open spec fn parse_array<T: BinaryEncoder>(s: Seq<u8>) -> Parsed<Option<Seq<T::V>>> {
    match parse_u32(s) {
        Err(e) => Err(e),
        Ok((x, _)) => {
            let len = x as i32;
            if len == -1 {
                Ok((None, 4))
            } else if len < -1 {
                Err(StatusCode::BadDecodingError)
            } else if len > MAX_ARRAY_LENGTH {
                Err(StatusCode::BadEncodingLimitsExceeded)
            } else {
                match parse_seq::<T>(s.skip(4), len as nat) {
                    Err(e) => Err(e),
                    Ok((xs, k)) => Ok((Some(xs), 4 + k)),
                }
            }
        },
    }
}

pub proof fn lemma_seq_round_trip<T: BinaryEncoder>(s: Seq<T::V>, rest: Seq<u8>)
    requires
        all_in_limits::<T>(s),
    ensures
        parse_seq::<T>(encode_seq::<T>(s) + rest, s.len()) == Ok::<(Seq<T::V>, nat), StatusCode>(
            (s, encode_seq::<T>(s).len()),
        ),
    decreases s.len(),
{
    if s.len() == 0 {
        assert(s =~= seq![]);
    } else {
        let init = s.drop_last();
        let e_last = T::encoding(s.last());
        let all = encode_seq::<T>(s) + rest;
        assert(all =~= encode_seq::<T>(init) + (e_last + rest));
        assert forall|i: int| 0 <= i < init.len() implies T::in_limits(#[trigger] init[i]) by {
            assert(init[i] == s[i]);
        }
        lemma_seq_round_trip::<T>(init, e_last + rest);
        T::lemma_round_trip(s.last(), rest);
        assert(all.skip(encode_seq::<T>(init).len() as int) =~= e_last + rest);
        assert(init.push(s.last()) =~= s);
    }
}

pub proof fn lemma_seq_parse_len<T: BinaryEncoder>(s: Seq<u8>, n: nat)
    ensures
        parse_seq::<T>(s, n) matches Ok((xs, k)) ==> k <= s.len() && xs.len() == n
            && all_in_limits::<T>(xs),
    decreases n,
{
    if n > 0 {
        lemma_seq_parse_len::<T>(s, (n - 1) as nat);
        if let Ok((xs, k)) = parse_seq::<T>(s, (n - 1) as nat) {
            T::lemma_parse_len(s.skip(k as int));
            if let Ok((x, m)) = T::parse(s.skip(k as int)) {
                assert forall|i: int| 0 <= i < xs.push(x).len() implies T::in_limits(
                    #[trigger] xs.push(x)[i],
                ) by {
                    if i < xs.len() {
                        assert(xs.push(x)[i] == xs[i]);
                    }
                }
            }
        }
    }
}

pub proof fn lemma_seq_parse_err<T: BinaryEncoder>(s: Seq<u8>, i: nat, j: nat)
    requires
        i <= j,
        parse_seq::<T>(s, i) is Err,
    ensures
        parse_seq::<T>(s, j) == parse_seq::<T>(s, i),
    decreases j - i,
{
    if i < j {
        lemma_seq_parse_err::<T>(s, i, (j - 1) as nat);
    }
}

/// The encoding of a prefix is no longer than the whole encoding.
pub proof fn lemma_prefix_len<T: BinaryEncoder>(s: Seq<T::V>, i: int)
    requires
        0 <= i <= s.len(),
    ensures
        encode_seq::<T>(s.take(i)).len() <= encode_seq::<T>(s).len(),
    decreases s.len() - i,
{
    if i < s.len() {
        lemma_prefix_len::<T>(s, i + 1);
        assert(s.take(i + 1).drop_last() =~= s.take(i));
    } else {
        assert(s.take(i) =~= s);
    }
}

pub proof fn lemma_array_round_trip<T: BinaryEncoder>(a: Option<Seq<T::V>>, rest: Seq<u8>)
    requires
        array_in_limits::<T>(a),
    ensures
        parse_array::<T>(array_encoding::<T>(a) + rest) == Ok::<
            (Option<Seq<T::V>>, nat),
            StatusCode,
        >((a, array_encoding::<T>(a).len())),
{
    match a {
        None => {
            lemma_parse_u32_round_trip(0xffff_ffff, rest);
            assert((0xffff_ffffu32 as i32) == -1) by (bit_vector);
        },
        Some(s) => {
            let len = s.len() as u32;
            let body = encode_seq::<T>(s);
            assert(le_u32(len) + body + rest =~= le_u32(len) + (body + rest));
            lemma_parse_u32_round_trip(len, body + rest);
            assert(len < 0x8000_0000 ==> (len as i32) as int == len as int) by (bit_vector);
            assert((le_u32(len) + body + rest).skip(4) =~= body + rest);
            lemma_seq_round_trip::<T>(s, rest);
        },
    }
}

pub proof fn lemma_array_parse_len<T: BinaryEncoder>(s: Seq<u8>)
    ensures
        parse_array::<T>(s) matches Ok((a, n)) ==> n <= s.len() && array_in_limits::<T>(a),
{
    lemma_seq_parse_len::<T>(s.skip(4), (u32_at(s) as i32) as nat);
}

spec fn u32_at(s: Seq<u8>) -> u32 {
    match parse_u32(s) {
        Ok((x, _)) => x,
        Err(_) => 0,
    }
}

/// The encoded size of an optional array.
pub fn byte_len_array<T: BinaryEncoder>(a: &Option<Vec<T>>) -> (r: usize)
    requires
        array_encoding::<T>(opt_vec_view(a)).len() <= usize::MAX,
    ensures
        r == array_encoding::<T>(opt_vec_view(a)).len(),
{
    match a {
        None => 4,
        Some(v) => {
            let ghost s = views(v@);
            let mut size: usize = 4;
            let mut i: usize = 0;
            while i < v.len()
                invariant
                    i <= v@.len(),
                    s == views(v@),
                    4 + encode_seq::<T>(s).len() <= usize::MAX,
                    size == 4 + encode_seq::<T>(s.take(i as int)).len(),
                decreases v@.len() - i,
            {
                proof {
                    lemma_prefix_len::<T>(s, i + 1);
                    assert(s.take(i + 1).drop_last() =~= s.take(i as int));
                    assert(s.take(i + 1).last() == v@[i as int]@);
                }
                size = size + v[i].byte_len();
                i = i + 1;
            }
            assert(s.take(i as int) =~= s);
            size
        },
    }
}

/// Appends an optional array; fails when it, or one of its elements, exceeds the limits.
pub fn write_array<T: BinaryEncoder>(buf: &mut Vec<u8>, a: &Option<Vec<T>>) -> (r: Result<
    usize,
    StatusCode,
>)
    requires
        old(buf)@.len() + array_encoding::<T>(opt_vec_view(a)).len() <= usize::MAX,
    ensures
        encoded_as(
            r,
            old(buf)@,
            final(buf)@,
            array_encoding::<T>(opt_vec_view(a)),
            array_in_limits::<T>(opt_vec_view(a)),
        ),
{
    match a {
        None => {
            write_u32(buf, 0xffff_ffff);
            Ok(4)
        },
        Some(v) => {
            if v.len() > MAX_ARRAY_LENGTH {
                return Err(StatusCode::BadEncodingLimitsExceeded);
            }
            let ghost s = views(v@);
            assert(opt_vec_view(a) == Some(s));
            write_u32(buf, v.len() as u32);
            let ghost start = buf@;
            let mut size: usize = 4;
            let mut i: usize = 0;
            while i < v.len()
                invariant
                    i <= v@.len() <= MAX_ARRAY_LENGTH,
                    s == views(v@),
                    opt_vec_view(a) == Some(s),
                    start == old(buf)@ + le_u32(v@.len() as u32),
                    start.len() + encode_seq::<T>(s).len() <= usize::MAX,
                    buf@ == start + encode_seq::<T>(s.take(i as int)),
                    size == 4 + encode_seq::<T>(s.take(i as int)).len(),
                    forall|j: int| 0 <= j < i ==> T::in_limits(#[trigger] s[j]),
                decreases v@.len() - i,
            {
                proof {
                    lemma_prefix_len::<T>(s, i + 1);
                    assert(s.take(i + 1).drop_last() =~= s.take(i as int));
                    assert(s.take(i + 1).last() == v@[i as int]@);
                }
                assert(s[i as int] == v@[i as int]@);
                match v[i].encode(buf) {
                    Err(e) => {
                        assert(!T::in_limits(s[i as int]));
                        assert(!all_in_limits::<T>(s));
                        assert(!array_in_limits::<T>(opt_vec_view(a)));
                        assert(e == StatusCode::BadEncodingLimitsExceeded);
                        return Err(e);
                    },
                    Ok(n) => {
                        size = size + n;
                    },
                }
                proof {
                    assert(buf@ =~= start + encode_seq::<T>(s.take(i + 1)));
                }
                i = i + 1;
            }
            assert(s.take(i as int) =~= s);
            assert(buf@ =~= old(buf)@ + array_encoding::<T>(opt_vec_view(a)));
            Ok(size)
        },
    }
}

/// Reads an optional array of at most `MAX_ARRAY_LENGTH` elements.
pub fn read_array<T: BinaryEncoder>(data: &[u8], pos: usize) -> (r: Result<
    (Option<Vec<T>>, usize),
    StatusCode,
>)
    requires
        pos <= data@.len(),
    ensures
        match (r, parse_array::<T>(data@.skip(pos as int))) {
            (Ok((v, end)), Ok((w, n))) => opt_vec_view(&v) == w && end == pos + n,
            (Err(e), Err(f)) => e == f,
            _ => false,
        },
        r matches Ok((_, end)) ==> end <= data@.len(),
{
    let (x, start) = match read_u32(data, pos) {
        Ok(x) => x,
        Err(e) => return Err(e),
    };
    let len = x as i32;
    if len == -1 {
        return Ok((None, start));
    } else if len < -1 {
        return Err(StatusCode::BadDecodingError);
    } else if len as usize > MAX_ARRAY_LENGTH {
        return Err(StatusCode::BadEncodingLimitsExceeded);
    }
    let n = len as usize;
    let ghost s = data@.skip(start as int);
    assert(s =~= data@.skip(pos as int).skip(4));
    assert(parse_array::<T>(data@.skip(pos as int)) == match parse_seq::<T>(s, n as nat) {
        Err(e) => Err(e),
        Ok((xs, k)) => Ok((Some(xs), 4 + k)),
    });
    let mut out: Vec<T> = Vec::new();
    assert(views(out@) =~= seq![]);
    let mut p: usize = start;
    let mut i: usize = 0;
    while i < n
        invariant
            i <= n,
            start <= p <= data@.len(),
            s == data@.skip(start as int),
            s == data@.skip(pos as int).skip(4),
            n as int == len as int,
            parse_array::<T>(data@.skip(pos as int)) == match parse_seq::<T>(s, n as nat) {
                Err(e) => Err(e),
                Ok((xs, k)) => Ok((Some(xs), 4 + k)),
            },
            parse_seq::<T>(s, i as nat) == Ok::<(Seq<T::V>, nat), StatusCode>(
                (views(out@), (p - start) as nat),
            ),
        decreases n - i,
    {
        assert(s.skip(p - start) =~= data@.skip(p as int));
        match T::decode(data, p) {
            Err(e) => {
                proof {
                    assert(T::parse(s.skip(p - start)) == Err::<(T::V, nat), StatusCode>(e));
                    assert(parse_seq::<T>(s, (i + 1) as nat) == Err::<(Seq<T::V>, nat), StatusCode>(e));
                    lemma_seq_parse_err::<T>(s, (i + 1) as nat, n as nat);
                    assert(parse_seq::<T>(s, n as nat) == Err::<(Seq<T::V>, nat), StatusCode>(e));
                    assert(parse_seq::<T>(data@.skip(pos as int).skip(4), len as nat) == Err::<(Seq<T::V>, nat), StatusCode>(e));
                }
                return Err(e);
            },
            Ok((item, next)) => {
                let ghost prev = out@;
                out.push(item);
                p = next;
                assert(views(out@) =~= views(prev).push(item@));
            },
        }
        i = i + 1;
    }
    Ok((Some(out), p))
}

} // verus!
