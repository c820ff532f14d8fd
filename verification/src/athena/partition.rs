//! Partition values and partition keys of Athena tables.

use crate::number::{decimal, decimal_of};
use crate::text::{
    ascii_lower, join, joined, replace_char, replaced, same, stands_at, starts_with, to_ascii_lower,
    views,
};
use crate::value::{kind_name, missing, Value};
use vstd::prelude::*;
use vstd::utf8::encode_utf8;

verus! {

/// The low 31 bits of an integer.
pub const INTEGER_MAX_VALUE_32_BIT_SIGNED: u32 = 0x7FFF_FFFF;

// ---------------------------------------------------------------------------
// Partition values
// ---------------------------------------------------------------------------

/// A partition value as SQL, and the operator that compares a column with it.
pub open spec fn partition_value(value: Value, column_type: Seq<char>) -> Result<
    (Seq<char>, Seq<char>),
    Seq<char>,
> {
    if missing(value) {
        Ok(("null"@, " is "@))
    } else if column_type == "integer"@ {
        Ok((value.text@, "="@))
    } else if column_type == "string"@ {
        Ok(("'"@ + replace_char(value.text@, '\'', "''"@) + "'"@, "="@))
    } else if column_type == "date"@ {
        Ok(("DATE'"@ + value.text@ + "'"@, "="@))
    } else if column_type == "timestamp"@ {
        Ok(("TIMESTAMP'"@ + value.text@ + "'"@, "="@))
    } else {
        Err("Unsupported column type: "@ + column_type)
    }
}

pub open spec fn pair_outcome(r: Result<(String, &'static str), String>) -> Result<
    (Seq<char>, Seq<char>),
    Seq<char>,
> {
    match r {
        Ok((a, b)) => Ok((a@, b@)),
        Err(e) => Err(e@),
    }
}

/// A partition value as SQL, and the operator that compares a column with it.
pub fn format_value_for_partition(value: &Value, column_type: &str) -> (r: Result<
    (String, &'static str),
    String,
>)
    ensures
        pair_outcome(r) == partition_value(*value, column_type@),
{
    if value.is_missing() {
        return Ok(("null".to_owned(), " is "));
    }
    if same(column_type, "integer") {
        Ok((value.text.clone(), "="))
    } else if same(column_type, "string") {
        let escaped = replaced(value.text.as_str(), '\'', "''");
        Ok(("'".to_owned().concat(escaped.as_str()).concat("'"), "="))
    } else if same(column_type, "date") {
        Ok(("DATE'".to_owned().concat(value.text.as_str()).concat("'"), "="))
    } else if same(column_type, "timestamp") {
        Ok(("TIMESTAMP'".to_owned().concat(value.text.as_str()).concat("'"), "="))
    } else {
        Err("Unsupported column type: ".to_owned().concat(column_type))
    }
}

// ---------------------------------------------------------------------------
// Partition keys
// ---------------------------------------------------------------------------

pub open spec fn is_unit(unit: Seq<char>) -> bool {
    unit == "hour"@ || unit == "day"@ || unit == "month"@ || unit == "year"@
}

/// A text of one line that is not empty.
pub open spec fn one_line(x: Seq<char>) -> bool {
    x.len() > 0 && forall|i: int| 0 <= i < x.len() ==> #[trigger] x[i] != '\n'
}

/// The text starts with a unit of time applied to `x`.
pub open spec fn hidden_match(s: Seq<char>, unit: Seq<char>, x: Seq<char>) -> bool {
    is_unit(unit) && one_line(x) && starts_with(s, unit + "("@ + x + ")"@)
}

pub open spec fn longest_hidden(s: Seq<char>, unit: Seq<char>, x: Seq<char>) -> bool {
    hidden_match(s, unit, x) && forall|v: Seq<char>, y: Seq<char>|
        #[trigger] hidden_match(s, v, y) ==> y.len() <= x.len()
}

/// The unit and the longest argument that a hidden partition key starts with.
pub open spec fn hidden_partition(s: Seq<char>) -> Option<(Seq<char>, Seq<char>)> {
    if exists|unit: Seq<char>, x: Seq<char>| longest_hidden(s, unit, x) {
        Some(choose|unit: Seq<char>, x: Seq<char>| longest_hidden(s, unit, x))
    } else {
        None
    }
}

/// A bucket of `x` stands in the text at index `i`.
pub open spec fn bucket_match(s: Seq<char>, i: int, x: Seq<char>) -> bool {
    one_line(x) && stands_at(s, "bucket("@ + x + ","@, i)
}

pub open spec fn first_longest_bucket(s: Seq<char>, i: int, x: Seq<char>) -> bool {
    &&& bucket_match(s, i, x)
    &&& forall|j: int, y: Seq<char>| #[trigger] bucket_match(s, j, y) ==> i <= j
    &&& forall|y: Seq<char>| #[trigger] bucket_match(s, i, y) ==> y.len() <= x.len()
}

/// The longest column text of the first bucket that stands in a partition key.
pub open spec fn bucket_partition(s: Seq<char>) -> Option<Seq<char>> {
    if exists|i: int, x: Seq<char>| first_longest_bucket(s, i, x) {
        let found = choose|i: int, x: Seq<char>| first_longest_bucket(s, i, x);
        Some(found.1)
    } else {
        None
    }
}

/// `Regex::captures` of `^(hour|day|month|year)\((.+)\)`: the two groups of the match. The
/// pattern is anchored, `.` stands for any character but a line feed, and the repetition
/// is greedy, so the second group is the longest that fits.
#[verifier::external_body]
fn hidden_captures(s: &str) -> (r: Option<(String, String)>)
    ensures
        match r {
            Some((unit, x)) => longest_hidden(s@, unit@, x@),
            None => forall|unit: Seq<char>, x: Seq<char>| !#[trigger] hidden_match(s@, unit, x),
        },
{
    let pattern = regex::Regex::new(r"^(hour|day|month|year)\((.+)\)").expect("valid regex");
    pattern.captures(s).map(|caps| (caps[1].to_string(), caps[2].to_string()))
}

/// `Regex::captures` of `bucket\((.+),`: the group of the first match. The search finds
/// the leftmost start, `.` stands for any character but a line feed, and the repetition
/// is greedy, so the group is the longest that fits there.
#[verifier::external_body]
fn bucket_captures(s: &str) -> (r: Option<String>)
    ensures
        match r {
            Some(x) => exists|i: int| first_longest_bucket(s@, i, x@),
            None => forall|i: int, x: Seq<char>| !#[trigger] bucket_match(s@, i, x),
        },
{
    let pattern = regex::Regex::new(r"bucket\((.+),").expect("valid regex");
    pattern.captures(s).map(|caps| caps[1].to_string())
}

/// A text has at most one longest hidden partition.
pub proof fn hidden_partition_is(s: Seq<char>, unit: Seq<char>, x: Seq<char>)
    requires
        longest_hidden(s, unit, x),
    ensures
        hidden_partition(s) == Some((unit, x)),
{
    let (v, y) = choose|v: Seq<char>, y: Seq<char>| longest_hidden(s, v, y);
    assert(longest_hidden(s, v, y));
    reveal_strlit("hour");
    reveal_strlit("day");
    reveal_strlit("month");
    reveal_strlit("year");
    reveal_strlit("(");
    reveal_strlit(")");
    let a = unit + "("@ + x + ")"@;
    let b = v + "("@ + y + ")"@;
    assert(hidden_match(s, unit, x) && hidden_match(s, v, y));
    assert(s.subrange(0, a.len() as int) == a);
    assert(s.subrange(0, b.len() as int) == b);
    assert(s[0] == a[0] && a[0] == unit[0]) by {
        assert(s.subrange(0, a.len() as int)[0] == s[0]);
    }
    assert(s[0] == b[0] && b[0] == v[0]) by {
        assert(s.subrange(0, b.len() as int)[0] == s[0]);
    }
    assert(unit == v);
    assert(x.len() == y.len());
    assert forall|i: int| 0 <= i < x.len() implies x[i] == y[i] by {
        let k = unit.len() + 1 + i;
        assert(a[k] == x[i]);
        assert(b[k] == y[i]);
        assert(s.subrange(0, a.len() as int)[k] == s[k]);
    }
    assert(x =~= y);
}

/// A text has at most one longest first bucket.
pub proof fn bucket_partition_is(s: Seq<char>, i: int, x: Seq<char>)
    requires
        first_longest_bucket(s, i, x),
    ensures
        bucket_partition(s) == Some(x),
{
    let (j, y) = choose|j: int, y: Seq<char>| first_longest_bucket(s, j, y);
    assert(first_longest_bucket(s, j, y));
    assert(bucket_match(s, i, x) && bucket_match(s, j, y));
    assert(i == j);
    assert(x.len() == y.len());
    let a = "bucket("@ + x + ","@;
    let b = "bucket("@ + y + ","@;
    let n = "bucket("@.len();
    assert(s.subrange(i, i + a.len()) == a);
    assert(s.subrange(i, i + b.len()) == b);
    assert forall|k: int| 0 <= k < x.len() implies x[k] == y[k] by {
        assert(a[n + k] == x[k]);
        assert(b[n + k] == y[k]);
        assert(s.subrange(i, i + a.len())[n + k] == s.subrange(i, i + b.len())[n + k]);
    }
    assert(x =~= y);
}

/// A partition key in SQL: a hidden partition (`day(ts)`) as a truncated date, a bucket
/// (`bucket(col, 8)`) as its column, anything else in lower case.
pub open spec fn partition_key(key: Seq<char>) -> Seq<char> {
    let lower = ascii_lower(key);
    match hidden_partition(lower) {
        Some((unit, x)) => "date_trunc('"@ + unit + "', "@ + x + ")"@,
        None => match bucket_partition(lower) {
            Some(column) => column,
            None => lower,
        },
    }
}

/// A partition key in SQL.
pub fn format_one_partition_key(partition_key: &str) -> (r: String)
    ensures
        r@ == self::partition_key(partition_key@),
{
    let lower = to_ascii_lower(partition_key);
    match hidden_captures(lower.as_str()) {
        Some((unit, x)) => {
            proof {
                hidden_partition_is(lower@, unit@, x@);
            }
            "date_trunc('".to_owned().concat(unit.as_str()).concat("', ").concat(
                x.as_str(),
            ).concat(")")
        },
        None => match bucket_captures(lower.as_str()) {
            Some(column) => {
                proof {
                    let i = choose|i: int| first_longest_bucket(lower@, i, column@);
                    bucket_partition_is(lower@, i, column@);
                }
                column
            },
            None => lower,
        },
    }
}

pub open spec fn partition_keys(keys: Seq<Seq<char>>) -> Seq<char> {
    join(keys.map_values(|k: Seq<char>| partition_key(k)), ", "@)
}

/// The partition keys in SQL, with commas between them.
pub fn format_partition_keys(partition_keys: &Vec<String>) -> (r: String)
    ensures
        r@ == self::partition_keys(views(partition_keys@)),
{
    let mut formatted: Vec<String> = Vec::new();
    let mut i: usize = 0;
    while i < partition_keys.len()
        invariant
            i <= partition_keys.len(),
            formatted.len() == i,
            forall|j: int|
                0 <= j < i ==> (#[trigger] formatted@[j])@ == partition_key(partition_keys@[j]@),
        decreases partition_keys.len() - i,
    {
        formatted.push(format_one_partition_key(partition_keys[i].as_str()));
        i += 1;
    }
    assert(views(formatted@) =~= views(partition_keys@).map_values(
        |k: Seq<char>| partition_key(k),
    ));
    joined(&formatted, ", ")
}

// ---------------------------------------------------------------------------
// Buckets
// ---------------------------------------------------------------------------

pub const C1: u32 = 0xcc9e_2d51;

pub const C2: u32 = 0x1b87_3593;

pub open spec fn rotl(x: u32, r: u32) -> u32 {
    (x << r) | (x >> ((32 - r) as u32))
}

/// Four bytes as a little-endian word.
pub open spec fn word(b: Seq<u8>) -> u32 {
    (b[0] as u32) | ((b[1] as u32) << 8u32) | ((b[2] as u32) << 16u32) | ((b[3] as u32) << 24u32)
}

/// One block mixed for the state.
pub open spec fn mixed(k: u32) -> u32 {
    rotl(k.wrapping_mul(C1), 15).wrapping_mul(C2)
}

/// The state after the first `n` whole blocks of four bytes.
pub open spec fn blocks(data: Seq<u8>, seed: u32, n: nat) -> u32
    decreases n,
{
    if n == 0 {
        seed
    } else {
        let h = blocks(data, seed, (n - 1) as nat) ^ mixed(
            word(data.subrange(4 * (n - 1), 4 * n as int)),
        );
        rotl(h, 13).wrapping_mul(5).wrapping_add(0xe654_6b64)
    }
}

/// The bytes behind the last whole block, as a little-endian word.
pub open spec fn tail_word(b: Seq<u8>) -> u32
    decreases b.len(),
{
    if b.len() == 0 {
        0
    } else {
        tail_word(b.drop_last()) ^ ((b.last() as u32) << ((8 * (b.len() - 1)) as u32))
    }
}

/// The final mix of the state.
pub open spec fn avalanche(h: u32) -> u32 {
    let a = (h ^ (h >> 16u32)).wrapping_mul(0x85eb_ca6b);
    let b = (a ^ (a >> 13u32)).wrapping_mul(0xc2b2_ae35);
    b ^ (b >> 16u32)
}

/// MurmurHash3, the x86 variant with 32 bits.
pub open spec fn murmur3(data: Seq<u8>, seed: u32) -> u32 {
    let n = data.len() / 4;
    let h = blocks(data, seed, n);
    let tail = data.skip(4 * n as int);
    let h = if tail.len() > 0 {
        h ^ mixed(tail_word(tail))
    } else {
        h
    };
    avalanche(h ^ (data.len() as u32))
}

fn rotate_left(x: u32, r: u32) -> (y: u32)
    requires
        0 < r < 32,
    ensures
        y == rotl(x, r),
{
    (x << r) | (x >> (32 - r))
}

fn mix(k: u32) -> (r: u32)
    ensures
        r == mixed(k),
{
    rotate_left(k.wrapping_mul(C1), 15).wrapping_mul(C2)
}

/// The little-endian word that starts at an index.
fn word_at(data: &[u8], at: usize) -> (k: u32)
    requires
        at + 4 <= data@.len(),
    ensures
        k == word(data@.subrange(at as int, at + 4)),
{
    let ghost block = data@.subrange(at as int, at + 4);
    assert(block[0] == data@[at as int]);
    assert(block[1] == data@[at + 1]);
    assert(block[2] == data@[at + 2]);
    assert(block[3] == data@[at + 3]);
    (data[at] as u32) | ((data[at + 1] as u32) << 8u32) | ((data[at + 2] as u32) << 16u32) | ((
    data[at + 3] as u32) << 24u32)
}

/// MurmurHash3 x86 32-bit, as a signed integer.
pub fn murmur3_32(data: &[u8], seed: u32) -> (r: i32)
    ensures
        r == murmur3(data@, seed) as i32,
{
    let len: usize = data.len();
    let whole: usize = len / 4;
    let mut h: u32 = seed;
    let mut n: usize = 0;
    while n < whole
        invariant
            n <= whole,
            len == data@.len(),
            whole == len / 4,
            h == blocks(data@, seed, n as nat),
        decreases whole - n,
    {
        let k: u32 = word_at(data, 4 * n);
        assert(4 * ((n + 1) as nat) as int == 4 * n + 4);
        let x: u32 = h ^ mix(k);
        h = rotate_left(x, 13).wrapping_mul(5).wrapping_add(0xe654_6b64);
        n += 1;
    }
    let from: usize = 4 * whole;
    let ghost tail = data@.skip(4 * whole as int);
    if from < len {
        let mut k: u32 = 0;
        let mut i: usize = from;
        assert(tail.take(0) =~= Seq::<u8>::empty());
        while i < len
            invariant
                from <= i <= len,
                len == data@.len(),
                len - from < 4,
                tail == data@.skip(from as int),
                k == tail_word(tail.take(i - from)),
            decreases len - i,
        {
            let ghost next = tail.take(i - from + 1);
            assert(next.drop_last() =~= tail.take(i - from));
            let shift: u32 = 8 * ((i - from) as u32);
            k = k ^ ((data[i] as u32) << shift);
            i += 1;
        }
        assert(tail.take(len - from) =~= tail);
        h = h ^ mix(k);
    }
    h = h ^ (len as u32);
    h = h ^ (h >> 16u32);
    h = h.wrapping_mul(0x85eb_ca6b);
    h = h ^ (h >> 13u32);
    h = h.wrapping_mul(0xc2b2_ae35);
    h = h ^ (h >> 16u32);
    h as i32
}

/// The eight bytes of an integer, the lowest first.
pub open spec fn le_bytes(n: i64) -> Seq<u8> {
    Seq::new(8, |i: int| ((n as u64) >> ((8 * i) as u64)) as u8)
}

fn bytes_of(n: i64) -> (r: Vec<u8>)
    ensures
        r@ == le_bytes(n),
{
    let w: u64 = n as u64;
    let mut r: Vec<u8> = Vec::new();
    let mut i: usize = 0;
    while i < 8
        invariant
            i <= 8,
            w == n as u64,
            r@ == le_bytes(n).take(i as int),
        decreases 8 - i,
    {
        let shift: u64 = 8 * (i as u64);
        r.push((w >> shift) as u8);
        i += 1;
        assert(r@ =~= le_bytes(n).take(i as int));
    }
    r
}

/// What of a value is hashed: an integer as eight bytes, bytes as they are, a string as UTF-8.
pub open spec fn hashed_bytes(value: Value) -> Option<Seq<u8>> {
    match value.integer {
        Some(n) => Some(le_bytes(n)),
        None => match value.bytes {
            Some(b) => Some(b@),
            None => match value.string {
                Some(s) => Some(encode_utf8(s@)),
                None => None,
            },
        },
    }
}

/// The bucket of a value: the low 31 bits of its hash, modulo the number of buckets.
pub open spec fn bucket_of(value: Value, num_buckets: int) -> Result<int, Seq<char>> {
    if num_buckets <= 0 {
        Err("num_buckets must be positive, got "@ + decimal(num_buckets))
    } else {
        match hashed_bytes(value) {
            Some(bytes) => Ok(
                ((murmur3(bytes, 0) & INTEGER_MAX_VALUE_32_BIT_SIGNED) as int) % num_buckets,
            ),
            None => Err(
                "Need to add support data type for hashing: "@ + kind_name(value.kind),
            ),
        }
    }
}

/// The Iceberg bucket transform of a partition value.
pub fn murmur3_hash(value: &Value, num_buckets: i64) -> (r: Result<i64, String>)
    ensures
        match (r, bucket_of(*value, num_buckets as int)) {
            (Ok(b), Ok(c)) => b == c,
            (Err(e), Err(f)) => e@ == f,
            _ => false,
        },
{
    if num_buckets <= 0 {
        return Err(
            "num_buckets must be positive, got ".to_owned().concat(
                decimal_of(num_buckets as i128).as_str(),
            ),
        );
    }
    let hash: i32 = match value.integer {
        Some(n) => murmur3_32(bytes_of(n).as_slice(), 0),
        None => match &value.bytes {
            Some(bytes) => murmur3_32(bytes.as_slice(), 0),
            None => match &value.string {
                Some(s) => murmur3_32(s.as_str().as_bytes_vec().as_slice(), 0),
                None => {
                    return Err(
                        "Need to add support data type for hashing: ".to_owned().concat(
                            value.kind.name(),
                        ),
                    );
                },
            },
        },
    };
    let low: u32 = (hash as u32) & INTEGER_MAX_VALUE_32_BIT_SIGNED;
    assert(forall|h: u32| #[trigger] ((h as i32) as u32) == h) by (bit_vector);
    let bucket: u64 = (low as u64) % (num_buckets as u64);
    Ok(bucket as i64)
}

/// Bytes make up words with the lowest byte first, as many as there are.
pub proof fn words_are_little_endian(a: u8, b: u8, c: u8, d: u8)
    ensures
        word(seq![a, b, c, d]) == a + 0x100 * b + 0x1_0000 * c + 0x100_0000 * d,
        tail_word(seq![a]) == a,
        tail_word(seq![a, b]) == a + 0x100 * b,
        tail_word(seq![a, b, c]) == a + 0x100 * b + 0x1_0000 * c,
{
    let (w, x, y, z) = (a as u32, b as u32, c as u32, d as u32);
    assert(w < 256 && x < 256 && y < 256 && z < 256 ==> w | (x << 8u32) | (y << 16u32) | (z
        << 24u32) == w + 0x100 * x + 0x1_0000 * y + 0x100_0000 * z && 0u32 ^ (w << 0u32) == w
        && w ^ (x << 8u32) == w + 0x100 * x && w ^ (x << 8u32) ^ (y << 16u32) == w + 0x100 * x
        + 0x1_0000 * y) by (bit_vector);
    let one = seq![a];
    let two = seq![a, b];
    let three = seq![a, b, c];
    assert(one.drop_last() =~= Seq::empty());
    assert(two.drop_last() =~= one);
    assert(three.drop_last() =~= two);
    assert(tail_word(Seq::empty()) == 0);
    assert(tail_word(one) == 0u32 ^ (w << 0u32));
    assert(tail_word(two) == w ^ (x << 8u32));
    assert(tail_word(three) == w ^ (x << 8u32) ^ (y << 16u32));
}

/// The hash of fewer than four bytes is that of their word, and of their number.
pub proof fn short_inputs_are_hashed_by_their_word(data: Seq<u8>, seed: u32)
    ensures
        data.len() == 0 ==> murmur3(data, seed) == avalanche(seed),
        0 < data.len() < 4 ==> murmur3(data, seed) == avalanche(
            (seed ^ mixed(tail_word(data))) ^ (data.len() as u32),
        ),
{
    assert(seed ^ 0u32 == seed) by (bit_vector);
    if data.len() < 4 {
        assert(data.skip(0) =~= data);
    }
}

proof fn blocks_go_on(data: Seq<u8>, seed: u32, n: nat)
    requires
        0 < n,
        4 * n <= data.len(),
    ensures
        blocks(data, seed, n) == blocks(
            data.skip(4),
            rotl(seed ^ mixed(word(data.take(4))), 13).wrapping_mul(5).wrapping_add(0xe654_6b64),
            (n - 1) as nat,
        ),
    decreases n,
{
    let rest = data.skip(4);
    if n == 1 {
        assert(data.subrange(0, 4) =~= data.take(4));
        assert(blocks(data, seed, 0) == seed);
    } else {
        blocks_go_on(data, seed, (n - 1) as nat);
        assert(rest.subrange(4 * (n - 2), 4 * (n - 1)) =~= data.subrange(4 * (n - 1), 4 * n as int));
    }
}

/// Hashing four bytes and then others goes on from the state behind the four: what is left
/// to do for the whole and for the others differs in their number alone.
pub proof fn long_inputs_are_hashed_word_by_word(data: Seq<u8>, seed: u32)
    requires
        data.len() >= 4,
    ensures
        exists|state: u32|
            {
                &&& murmur3(data, seed) == #[trigger] avalanche(state ^ (data.len() as u32))
                &&& murmur3(
                    data.skip(4),
                    rotl(seed ^ mixed(word(data.take(4))), 13).wrapping_mul(5).wrapping_add(
                        0xe654_6b64,
                    ),
                ) == avalanche(state ^ ((data.len() - 4) as u32))
            },
{
    let n = data.len() / 4;
    let rest = data.skip(4);
    let next = rotl(seed ^ mixed(word(data.take(4))), 13).wrapping_mul(5).wrapping_add(0xe654_6b64);
    blocks_go_on(data, seed, n);
    assert(rest.len() / 4 == n - 1);
    let tail = data.skip(4 * n as int);
    assert(rest.skip(4 * (n - 1)) =~= tail);
    let h = blocks(data, seed, n);
    let state = if tail.len() > 0 {
        h ^ mixed(tail_word(tail))
    } else {
        h
    };
    assert(murmur3(data, seed) == avalanche(state ^ (data.len() as u32)));
    assert(murmur3(rest, next) == avalanche(state ^ (rest.len() as u32)));
}

/// A bucket is one of the buckets.
pub proof fn bucket_is_in_range(value: Value, num_buckets: int)
    ensures
        bucket_of(value, num_buckets) matches Ok(b) ==> 0 <= b < num_buckets,
{
}

/// Strings are hashed by their own UTF-8 bytes, whatever their case.
pub proof fn strings_are_hashed_as_they_are(value: Value, s: String, num_buckets: int)
    requires
        value.integer is None,
        value.bytes is None,
        value.string == Some(s),
        num_buckets > 0,
    ensures
        bucket_of(value, num_buckets) == Ok::<int, Seq<char>>(
            ((murmur3(encode_utf8(s@), 0) & 0x7FFF_FFFF) as int) % num_buckets,
        ),
{
}

/// Bytes are hashed as they are.
pub proof fn bytes_are_hashed_as_they_are(value: Value, bytes: Vec<u8>, num_buckets: int)
    requires
        value.integer is None,
        value.bytes == Some(bytes),
        num_buckets > 0,
    ensures
        bucket_of(value, num_buckets) == Ok::<int, Seq<char>>(
            ((murmur3(bytes@, 0) & 0x7FFF_FFFF) as int) % num_buckets,
        ),
{
}

/// Integers are hashed by eight bytes that give the integer back, the lowest first.
pub proof fn integers_are_hashed_by_eight_bytes(value: Value, n: i64, num_buckets: int)
    requires
        value.integer == Some(n),
        num_buckets > 0,
    ensures
        exists|b: Seq<u8>|
            #![trigger murmur3(b, 0)]
            b.len() == 8 && n as u64 == b[0] as u64 | (b[1] as u64) << 8u64 | (b[2] as u64)
                << 16u64 | (b[3] as u64) << 24u64 | (b[4] as u64) << 32u64 | (b[5] as u64)
                << 40u64 | (b[6] as u64) << 48u64 | (b[7] as u64) << 56u64 && bucket_of(
                value,
                num_buckets,
            ) == Ok::<int, Seq<char>>(((murmur3(b, 0) & 0x7FFF_FFFF) as int) % num_buckets),
{
    let w = n as u64;
    let b = le_bytes(n);
    assert(w == (w >> 0u64) as u8 as u64 | ((w >> 8u64) as u8 as u64) << 8u64 | ((w >> 16u64) as u8
        as u64) << 16u64 | ((w >> 24u64) as u8 as u64) << 24u64 | ((w >> 32u64) as u8 as u64)
        << 32u64 | ((w >> 40u64) as u8 as u64) << 40u64 | ((w >> 48u64) as u8 as u64) << 48u64 | ((w
        >> 56u64) as u8 as u64) << 56u64) by (bit_vector);
    assert(b.len() == 8);
    assert(b[0] == (w >> 0u64) as u8 && b[1] == (w >> 8u64) as u8 && b[2] == (w >> 16u64) as u8
        && b[3] == (w >> 24u64) as u8 && b[4] == (w >> 32u64) as u8 && b[5] == (w >> 40u64) as u8
        && b[6] == (w >> 48u64) as u8 && b[7] == (w >> 56u64) as u8);
    assert(bucket_of(value, num_buckets) == Ok::<int, Seq<char>>(
        ((murmur3(b, 0) & 0x7FFF_FFFF) as int) % num_buckets,
    ));
}

/// There is a bucket for every value with a form to hash and every positive number of
/// buckets, and for no other.
pub proof fn what_has_a_bucket(value: Value, num_buckets: int)
    ensures
        bucket_of(value, num_buckets) is Ok <==> num_buckets > 0 && (value.integer is Some
            || value.bytes is Some || value.string is Some),
        num_buckets <= 0 ==> bucket_of(value, num_buckets) == Err::<int, Seq<char>>(
            "num_buckets must be positive, got "@ + decimal(num_buckets),
        ),
{
}

/// A string in SQL is its characters between quotes, each quote doubled, whatever stands
/// round it.
pub proof fn strings_are_quoted(value: Value, c: char, longer: Value)
    requires
        !missing(value),
        !missing(longer),
        longer.text@ == value.text@.push(c),
    ensures
        value.text@.len() == 0 ==> partition_value(value, "string"@) == Ok::<
            (Seq<char>, Seq<char>),
            Seq<char>,
        >((seq!['\'', '\''], "="@)),
        (partition_value(value, "string"@) matches Ok((sql, operator)) && partition_value(
            longer,
            "string"@,
        ) == Ok::<(Seq<char>, Seq<char>), Seq<char>>(
            (
                sql.drop_last() + (if c == '\'' {
                    seq!['\'', '\'', '\'']
                } else {
                    seq![c, '\'']
                }),
                "="@,
            ),
        )),
{
    types_differ();
    reveal_strlit("'");
    reveal_strlit("''");
    assert("'"@ =~= seq!['\'']);
    assert("''"@ =~= seq!['\'', '\'']);
    assert(longer.text@.drop_last() =~= value.text@);
    let inner = replace_char(value.text@, '\'', "''"@);
    let sql = "'"@ + inner + "'"@;
    assert(sql.drop_last() =~= "'"@ + inner);
    assert("'"@ + replace_char(longer.text@, '\'', "''"@) + "'"@ =~= sql.drop_last() + (if c
        == '\'' {
        seq!['\'', '\'', '\'']
    } else {
        seq![c, '\'']
    }));
    if value.text@.len() == 0 {
        assert(sql =~= seq!['\'', '\'']);
    }
}

proof fn types_differ()
    ensures
        "integer"@ != "string"@,
        "integer"@ != "date"@,
        "integer"@ != "timestamp"@,
        "string"@ != "date"@,
        "string"@ != "timestamp"@,
        "date"@ != "timestamp"@,
{
    reveal_strlit("integer");
    reveal_strlit("string");
    reveal_strlit("date");
    reveal_strlit("timestamp");
    assert("integer"@.len() == 7 && "string"@.len() == 6 && "date"@.len() == 4 && "timestamp"@.len()
        == 9);
}

/// Every other value is compared as its text, behind the name of its type where SQL wants
/// one, and what is missing with `is null`, whatever its type.
pub proof fn values_are_written_by_type(value: Value, column_type: Seq<char>)
    ensures
        missing(value) ==> partition_value(value, column_type) == Ok::<
            (Seq<char>, Seq<char>),
            Seq<char>,
        >(("null"@, " is "@)),
        !missing(value) ==> {
            &&& partition_value(value, "integer"@) == Ok::<(Seq<char>, Seq<char>), Seq<char>>(
                (value.text@, "="@),
            )
            &&& partition_value(value, "date"@) == Ok::<(Seq<char>, Seq<char>), Seq<char>>(
                ("DATE'"@ + value.text@ + "'"@, "="@),
            )
            &&& partition_value(value, "timestamp"@) == Ok::<(Seq<char>, Seq<char>), Seq<char>>(
                ("TIMESTAMP'"@ + value.text@ + "'"@, "="@),
            )
            &&& partition_value(value, column_type) is Ok <==> column_type == "integer"@
                || column_type == "string"@ || column_type == "date"@ || column_type
                == "timestamp"@
        },
{
    types_differ();
}

/// A key that holds no bracket is a column, in lower case.
pub proof fn plain_keys_are_columns(key: Seq<char>)
    requires
        forall|i: int| 0 <= i < key.len() ==> #[trigger] key[i] != '(',
    ensures
        partition_key(key) == ascii_lower(key),
{
    let lower = ascii_lower(key);
    assert forall|i: int| 0 <= i < lower.len() implies #[trigger] lower[i] != '(' by {
        assert(key[i] != '(');
    }
    reveal_strlit("(");
    reveal_strlit("bucket(");
    assert forall|unit: Seq<char>, x: Seq<char>| !hidden_match(lower, unit, x) by {
        let head = unit + "("@ + x + ")"@;
        if starts_with(lower, head) {
            assert(lower.subrange(0, head.len() as int)[unit.len() as int] == head[unit.len() as int]);
            assert(lower[unit.len() as int] == '(');
        }
    }
    assert forall|i: int, x: Seq<char>| !bucket_match(lower, i, x) by {
        let head = "bucket("@ + x + ","@;
        if stands_at(lower, head, i) {
            assert(lower.subrange(i, i + head.len())[6] == head[6]);
            assert(lower[i + 6] == '(');
        }
    }
    assert(forall|unit: Seq<char>, x: Seq<char>| !longest_hidden(lower, unit, x)) by {
        assert forall|unit: Seq<char>, x: Seq<char>| !longest_hidden(lower, unit, x) by {
            assert(!hidden_match(lower, unit, x));
        }
    }
    assert(forall|i: int, x: Seq<char>| !first_longest_bucket(lower, i, x)) by {
        assert forall|i: int, x: Seq<char>| !first_longest_bucket(lower, i, x) by {
            assert(!bucket_match(lower, i, x));
        }
    }
}

/// A unit of time applied to a column is truncated to that unit.
pub proof fn units_of_time_truncate(unit: Seq<char>, column: Seq<char>)
    requires
        unit == "hour"@ || unit == "day"@ || unit == "month"@ || unit == "year"@,
        one_line(column),
        ascii_lower(column) == column,
    ensures
        partition_key(unit + "("@ + column + ")"@) == "date_trunc('"@ + unit + "', "@ + column
            + ")"@,
{
    reveal_strlit("hour");
    reveal_strlit("day");
    reveal_strlit("month");
    reveal_strlit("year");
    reveal_strlit("(");
    reveal_strlit(")");
    let key = unit + "("@ + column + ")"@;
    let lower = ascii_lower(key);
    assert forall|i: int| 0 <= i < key.len() implies lower[i] == key[i] by {
        if unit.len() + 1 <= i < unit.len() + 1 + column.len() {
            assert(key[i] == column[i - unit.len() - 1]);
            assert(ascii_lower(column)[i - unit.len() - 1] == column[i - unit.len() - 1]);
        }
    }
    assert(lower =~= key);
    assert(key.subrange(0, key.len() as int) =~= key);
    assert(hidden_match(key, unit, column));
    assert forall|v: Seq<char>, y: Seq<char>| #[trigger] hidden_match(key, v, y) implies y.len()
        <= column.len() by {
        let head = v + "("@ + y + ")"@;
        assert(key.subrange(0, head.len() as int)[0] == head[0]);
        assert(v =~= unit);
    }
    hidden_partition_is(key, unit, column);
}

/// The keys are written in their order, with commas between them.
pub proof fn keys_keep_their_order(keys: Seq<Seq<char>>, last: Seq<char>)
    ensures
        partition_keys(Seq::empty()) == Seq::<char>::empty(),
        partition_keys(seq![last]) == partition_key(last),
        keys.len() > 0 ==> partition_keys(keys.push(last)) == partition_keys(keys) + ", "@
            + partition_key(last),
{
    let f = |k: Seq<char>| partition_key(k);
    assert(keys.push(last).map_values(f).drop_last() =~= keys.map_values(f));
}

} // verus!
