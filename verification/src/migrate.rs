//! The database migration plan: which migration directories run and in
//! what order, the checksum that records a migration as applied, and the
//! statements a migration's SQL is split into.
use vstd::prelude::*;
use crate::text::str_eq;

verus! {

/// The name of the directory that holds the migration table's own SQL.
pub open spec fn migration_table_dir() -> Seq<char> {
    "migration_table"@
}

/// The SHA-256 digest of `data`, as `ring` computes it.
pub uninterp spec fn sha256(data: Seq<u8>) -> Seq<u8>;

/// Calls `ring::digest::digest` with SHA-256: the digest of `data`, whose
/// length the algorithm fixes at 32 bytes.
#[verifier::external_body]
fn ring_sha256(data: &[u8]) -> (r: Vec<u8>)
    ensures
        r@ == sha256(data@),
        r@.len() == 32,
{
    ring::digest::digest(&ring::digest::SHA256, data).as_ref().to_vec()
}

/// The SHA-256 digest of the contents of a migration file.
pub fn sha256_digest(contents: &[u8]) -> (r: Vec<u8>)
    ensures
        r@ == sha256(contents@),
        r@.len() == 32,
{
    ring_sha256(contents)
}

/// A SHA-256 digest context of `ring` (an outside type).
#[verifier::external_type_specification]
#[verifier::external_body]
pub struct ExDigestContext(ring::digest::Context);

/// The bytes fed to a SHA-256 digest context so far.
pub uninterp spec fn sha256_fed(ctx: ring::digest::Context) -> Seq<u8>;

/// Calls `ring::digest::Context::new` with SHA-256: a context fed nothing.
#[verifier::external_body]
fn sha256_context() -> (r: ring::digest::Context)
    ensures
        sha256_fed(r) == Seq::<u8>::empty(),
{
    ring::digest::Context::new(&ring::digest::SHA256)
}

/// Calls `ring::digest::Context::update`: the context is fed `data` after
/// what it was fed before.
#[verifier::external_body]
fn sha256_update(ctx: &mut ring::digest::Context, data: &[u8])
    ensures
        sha256_fed(*final(ctx)) == sha256_fed(*old(ctx)) + data@,
{
    ctx.update(data)
}

/// Calls `ring::digest::Context::finish`: the digest of all the bytes fed,
/// the same as the one-shot digest of them (as `ring`'s documentation of
/// `Context` shows). It panics on an input of 2^61 bytes or more, which is
/// left out.
#[verifier::external_body]
fn sha256_finish(ctx: ring::digest::Context) -> (r: Vec<u8>)
    requires
        sha256_fed(ctx).len() < 0x2000_0000_0000_0000,
    ensures
        r@ == sha256(sha256_fed(ctx)),
        r@.len() == 32,
{
    ctx.finish().as_ref().to_vec()
}

/// The bytes of a file read in chunks, given the outcome of each read in
/// order: their concatenation, or the first read's error.
pub open spec fn read_data(reads: Seq<Result<Vec<u8>, String>>) -> Result<Seq<u8>, String>
    decreases reads.len(),
{
    if reads.len() == 0 {
        Ok(Seq::empty())
    } else {
        match read_data(reads.drop_last()) {
            Err(e) => Err(e),
            Ok(prefix) => match reads.last() {
                Err(e) => Err(e),
                Ok(b) => Ok(prefix + b@),
            },
        }
    }
}

/// The SHA-256 digest of a file read in chunks, given the outcome of each
/// read in order: the digest of all the bytes read, however they were split
/// into reads; reading stops at the first failed read, whose error is
/// handed back.
pub fn sha256_of_reads(reads: &Vec<Result<Vec<u8>, String>>) -> (r: Result<Vec<u8>, String>)
    requires
        read_data(reads@) matches Ok(d) ==> d.len() < 0x2000_0000_0000_0000,
    ensures
        match read_data(reads@) {
            Err(e) => r == Err::<Vec<u8>, String>(e),
            Ok(d) => (r matches Ok(digest) && digest@ == sha256(d) && digest@.len() == 32),
        },
{
    let mut ctx = sha256_context();
    let mut i: usize = 0;
    proof {
        assert(reads@.subrange(0, 0) =~= Seq::<Result<Vec<u8>, String>>::empty());
        assert(sha256_fed(ctx) =~= Seq::<u8>::empty());
    }
    while i < reads.len()
        invariant
            i <= reads@.len(),
            read_data(reads@.subrange(0, i as int)) == Ok::<Seq<u8>, String>(sha256_fed(ctx)),
        decreases reads.len() - i,
    {
        proof {
            assert(reads@.subrange(0, i + 1).drop_last() =~= reads@.subrange(0, i as int));
        }
        match &reads[i] {
            Err(e) => {
                proof {
                    lemma_read_data_error(reads@, i + 1);
                }
                return Err(e.clone());
            },
            Ok(b) => {
                sha256_update(&mut ctx, b.as_slice());
            },
        }
        i = i + 1;
    }
    proof {
        assert(reads@.subrange(0, reads@.len() as int) =~= reads@);
    }
    Ok(sha256_finish(ctx))
}

/// A read error in the first `i` reads is the error of the whole.
proof fn lemma_read_data_error(reads: Seq<Result<Vec<u8>, String>>, i: int)
    requires
        0 <= i <= reads.len(),
        read_data(reads.subrange(0, i)) is Err,
    ensures
        read_data(reads) == read_data(reads.subrange(0, i)),
    decreases reads.len() - i,
{
    if i < reads.len() {
        assert(reads.subrange(0, i + 1).drop_last() =~= reads.subrange(0, i));
        lemma_read_data_error(reads, i + 1);
    } else {
        assert(reads.subrange(0, i) =~= reads);
    }
}

/// The lowercase hexadecimal digit of `d` (below 16).
pub open spec fn hex_digit(d: int) -> char {
    if d < 10 {
        ((d + 48) as u8) as char
    } else {
        ((d + 87) as u8) as char
    }
}

/// The lowercase hexadecimal text of `bytes`: two digits per byte, the high
/// one first.
pub open spec fn hex_lower(bytes: Seq<u8>) -> Seq<char>
    decreases bytes.len(),
{
    if bytes.len() == 0 {
        Seq::empty()
    } else {
        hex_lower(bytes.drop_last()) + seq![
            hex_digit(bytes.last() as int / 16),
            hex_digit(bytes.last() as int % 16),
        ]
    }
}

/// Calls `data_encoding::HEXLOWER.encode`: lowercase hexadecimal, two digits
/// per byte, the high one first. The encoder asserts that the input is at
/// most `usize::MAX / 512` bytes long, so longer inputs are left out.
#[verifier::external_body]
fn hexlower_encode(data: &[u8]) -> (r: String)
    requires
        data@.len() <= usize::MAX / 512,
    ensures
        r@ == hex_lower(data@),
{
    data_encoding::HEXLOWER.encode(data)
}

/// The checksum that records a migration as applied: the lowercase
/// hexadecimal SHA-256 digest of its SQL file.
pub fn migration_checksum(contents: &[u8]) -> (r: String)
    ensures
        r@ == hex_lower(sha256(contents@)),
        r@.len() == 64,
{
    let digest = sha256_digest(contents);
    let r = hexlower_encode(digest.as_slice());
    proof {
        lemma_hex_lower_len(digest@);
    }
    r
}

/// The hexadecimal text has two digits per byte.
pub proof fn lemma_hex_lower_len(bytes: Seq<u8>)
    ensures
        hex_lower(bytes).len() == 2 * bytes.len(),
    decreases bytes.len(),
{
    if bytes.len() > 0 {
        lemma_hex_lower_len(bytes.drop_last());
    }
}

/// Whether `c` is an ASCII digit.
pub open spec fn is_digit(c: char) -> bool {
    '0' <= c && c <= '9'
}

/// The value of a string of ASCII digits.
pub open spec fn digits_value(s: Seq<char>) -> int
    decreases s.len(),
{
    if s.len() == 0 {
        0
    } else {
        digits_value(s.drop_last()) * 10 + (s.last() as int - '0' as int)
    }
}

/// Whether `s` is an integer as `str::parse::<i64>` reads it: an optional
/// sign, then at least one ASCII digit.
pub open spec fn is_integer_text(s: Seq<char>) -> bool {
    integer_digits(s).len() > 0 && forall|i: int|
        0 <= i < integer_digits(s).len() ==> is_digit(#[trigger] integer_digits(s)[i])
}

/// The digits of an integer text: what follows its sign, if any.
pub open spec fn integer_digits(s: Seq<char>) -> Seq<char> {
    if s.len() > 0 && (s[0] == '+' || s[0] == '-') {
        s.subrange(1, s.len() as int)
    } else {
        s
    }
}

/// The value of an integer text.
pub open spec fn integer_value(s: Seq<char>) -> int {
    if s.len() > 0 && s[0] == '-' {
        -digits_value(s.subrange(1, s.len() as int))
    } else if s.len() > 0 && s[0] == '+' {
        digits_value(s.subrange(1, s.len() as int))
    } else {
        digits_value(s)
    }
}

/// Calls `str::parse::<i64>`: as its documentation says, an optional sign
/// then ASCII digits, and a value that fits.
#[verifier::external_body]
pub(crate) fn parse_i64(s: &str) -> (r: Option<i64>)
    ensures
        r is Some == (is_integer_text(s@) && i64::MIN <= integer_value(s@) && integer_value(s@)
            <= i64::MAX),
        r matches Some(v) ==> v == integer_value(s@),
{
    s.parse::<i64>().ok()
}

/// Whether a migration directory's name starts with a 14-character timestamp.
pub open spec fn has_timestamp(name: Seq<char>) -> bool {
    name.len() >= 14 && is_integer_text(name.subrange(0, 14))
}

/// The timestamp a migration directory's name starts with.
pub open spec fn timestamp(name: Seq<char>) -> int {
    integer_value(name.subrange(0, 14))
}

/// The value of fourteen digits at most fits an `i64`.
proof fn lemma_digits_value_bound(s: Seq<char>)
    requires
        forall|i: int| 0 <= i < s.len() ==> is_digit(#[trigger] s[i]),
    ensures
        0 <= digits_value(s) < pow10(s.len()),
    decreases s.len(),
{
    if s.len() > 0 {
        let t = s.drop_last();
        assert forall|i: int| 0 <= i < t.len() implies is_digit(#[trigger] t[i]) by {
            assert(t[i] == s[i]);
        }
        lemma_digits_value_bound(t);
        assert(is_digit(s[s.len() - 1]));
    }
}

/// Ten to the power `n`.
pub open spec fn pow10(n: nat) -> int
    decreases n,
{
    if n == 0 {
        1
    } else {
        10 * pow10((n - 1) as nat)
    }
}

fn migration_timestamp(name: &str) -> (r: i64)
    requires
        has_timestamp(name@),
    ensures
        r == timestamp(name@),
{
    let prefix = name.substring_char(0, 14);
    proof {
        let p = name@.subrange(0, 14);
        let digits = integer_digits(p);
        assert(is_integer_text(p));
        lemma_digits_value_bound(digits);
        reveal_with_fuel(pow10, 15);
        assert(pow10(14) == 100000000000000);
        assert(pow10(13) == 10000000000000);
    }
    match parse_i64(prefix) {
        Some(v) => v,
        None => 0,
    }
}

/// The texts of a sequence of strings.
pub open spec fn texts(v: Seq<String>) -> Seq<Seq<char>> {
    v.map_values(|s: String| s@)
}

/// The migration directories to run: all but the migration table's own.
pub open spec fn migration_dirs(names: Seq<Seq<char>>) -> Seq<Seq<char>> {
    names.filter(|n: Seq<char>| n != migration_table_dir())
}

/// The names of `s` whose timestamp is `t`, in order.
pub open spec fn with_timestamp(s: Seq<Seq<char>>, t: int) -> Seq<Seq<char>>
    decreases s.len(),
{
    if s.len() == 0 {
        Seq::empty()
    } else if timestamp(s.last()) == t {
        with_timestamp(s.drop_last(), t).push(s.last())
    } else {
        with_timestamp(s.drop_last(), t)
    }
}

/// Whether the names of `s` are ordered by timestamp.
pub open spec fn ordered_by_timestamp(s: Seq<Seq<char>>) -> bool {
    forall|i: int, j: int| 0 <= i < j < s.len() ==> timestamp(#[trigger] s[i]) <= timestamp(#[trigger] s[j])
}

proof fn lemma_with_timestamp_insert_other(s: Seq<Seq<char>>, p: int, x: Seq<char>, t: int)
    requires
        0 <= p <= s.len(),
        timestamp(x) != t,
    ensures
        with_timestamp(s.insert(p, x), t) == with_timestamp(s, t),
    decreases s.len(),
{
    if p == s.len() {
        assert(s.insert(p, x).drop_last() =~= s);
    } else {
        let ins = s.insert(p, x);
        assert(ins.drop_last() =~= s.drop_last().insert(p, x));
        assert(ins.last() == s.last());
        lemma_with_timestamp_insert_other(s.drop_last(), p, x, t);
    }
}

proof fn lemma_with_timestamp_insert_same(s: Seq<Seq<char>>, p: int, x: Seq<char>)
    requires
        0 <= p <= s.len(),
        forall|j: int| p <= j < s.len() ==> timestamp(#[trigger] s[j]) != timestamp(x),
    ensures
        with_timestamp(s.insert(p, x), timestamp(x)) == with_timestamp(s, timestamp(x)).push(x),
    decreases s.len(),
{
    if p == s.len() {
        assert(s.insert(p, x).drop_last() =~= s);
    } else {
        let ins = s.insert(p, x);
        assert(ins.drop_last() =~= s.drop_last().insert(p, x));
        assert(ins.last() == s.last());
        assert(timestamp(s[s.len() - 1]) != timestamp(x));
        lemma_with_timestamp_insert_same(s.drop_last(), p, x);
    }
}

/// The migration directories of `names` to run, in the order they run:
/// every name but the migration table's, ordered by timestamp, names with
/// the same timestamp in the order they were listed.
pub fn migration_order(names: Vec<String>) -> (r: Vec<String>)
    requires
        forall|i: int|
            0 <= i < names@.len() && names@[i]@ != migration_table_dir() ==> has_timestamp(
                #[trigger] names@[i]@,
            ),
    ensures
        ordered_by_timestamp(texts(r@)),
        forall|t: int|
            #[trigger] with_timestamp(texts(r@), t) == with_timestamp(
                migration_dirs(texts(names@)),
                t,
            ),
{
    let ghost input = texts(names@);
    let mut r: Vec<String> = Vec::new();
    let mut keys: Vec<i64> = Vec::new();
    let ghost mut done: Seq<Seq<char>> = Seq::empty();
    let mut i: usize = 0;
    while i < names.len()
        invariant
            i <= names@.len(),
            input == texts(names@),
            forall|k: int|
                0 <= k < names@.len() && names@[k]@ != migration_table_dir() ==> has_timestamp(
                    #[trigger] names@[k]@,
                ),
            done == migration_dirs(input.subrange(0, i as int)),
            keys@.len() == r@.len(),
            forall|k: int| 0 <= k < r@.len() ==> has_timestamp(#[trigger] r@[k]@),
            forall|k: int| 0 <= k < r@.len() ==> keys@[k] == timestamp(#[trigger] r@[k]@),
            ordered_by_timestamp(texts(r@)),
            forall|t: int| #[trigger] with_timestamp(texts(r@), t) == with_timestamp(done, t),
        decreases names@.len() - i,
    {
        let name = &names[i];
        proof {
            reveal(Seq::filter);
            let s = input.subrange(0, i + 1);
            assert(s.drop_last() =~= input.subrange(0, i as int));
            assert(s.last() == name@);
        }
        if !str_eq(name.as_str(), "migration_table") {
            let key = migration_timestamp(name.as_str());
            let mut p: usize = 0;
            while p < keys.len() && keys[p] <= key
                invariant
                    p <= keys@.len(),
                    keys@.len() == r@.len(),
                    forall|k: int| 0 <= k < p ==> keys@[k] <= key,
                decreases keys@.len() - p,
            {
                p = p + 1;
            }
            let ghost old_r = texts(r@);
            proof {
                assert forall|j: int| 0 <= j < p implies timestamp(#[trigger] old_r[j]) <= key by {
                    assert(keys@[j] == timestamp(r@[j]@));
                }
                assert forall|j: int| p <= j < old_r.len() implies timestamp(#[trigger] old_r[j])
                    > key by {
                    assert(keys@[j] == timestamp(r@[j]@));
                    assert(keys@[p as int] == timestamp(r@[p as int]@));
                    assert(keys@[p as int] > key);
                    if p < j {
                        assert(timestamp(old_r[p as int]) <= timestamp(old_r[j]));
                    }
                }
                assert forall|t: int| #[trigger]
                    with_timestamp(old_r.insert(p as int, name@), t) == with_timestamp(
                        done.push(name@),
                        t,
                    ) by {
                    assert(done.push(name@).drop_last() =~= done);
                    if t == timestamp(name@) {
                        lemma_with_timestamp_insert_same(old_r, p as int, name@);
                    } else {
                        lemma_with_timestamp_insert_other(old_r, p as int, name@, t);
                    }
                }
            }
            r.insert(p, name.clone());
            keys.insert(p, key);
            proof {
                let nr = texts(r@);
                assert(nr =~= old_r.insert(p as int, name@));
                done = done.push(name@);
                assert forall|a: int, b: int| 0 <= a < b < nr.len() implies timestamp(
                    #[trigger] nr[a],
                ) <= timestamp(#[trigger] nr[b]) by {
                    let ta = if a < p { timestamp(old_r[a]) } else if a == p { key as int } else { timestamp(old_r[a - 1]) };
                    let tb = if b < p { timestamp(old_r[b]) } else if b == p { key as int } else { timestamp(old_r[b - 1]) };
                    assert(timestamp(nr[a]) == ta);
                    assert(timestamp(nr[b]) == tb);
                    if b < p {
                    } else if b == p {
                    } else if a < p {
                        assert(timestamp(old_r[b - 1]) > key);
                    } else if a == p {
                        assert(timestamp(old_r[b - 1]) > key);
                    } else {
                    }
                }
            }
        } else {
            proof {
                assert(done == migration_dirs(input.subrange(0, i + 1)));
            }
        }
        i = i + 1;
    }
    proof {
        assert(input.subrange(0, names@.len() as int) =~= input);
    }
    r
}

/// The concatenation of a sequence of texts.
pub open spec fn joined(ss: Seq<Seq<char>>) -> Seq<char>
    decreases ss.len(),
{
    if ss.len() == 0 {
        Seq::empty()
    } else {
        joined(ss.drop_last()) + ss.last()
    }
}

/// Whether `s` is one statement: text that ends with its only `;`.
pub open spec fn is_statement(s: Seq<char>) -> bool {
    s.len() > 0 && s.last() == ';' && forall|j: int| 0 <= j < s.len() - 1 ==> s[j] != ';'
}

/// The statements of a migration's SQL, each with its closing `;`: the SQL
/// up to its last `;`, split after every `;`. What follows the last `;` is
/// not run.
pub fn migration_steps(sql: &str) -> (r: Vec<String>)
    ensures
        forall|k: int| 0 <= k < r@.len() ==> is_statement(#[trigger] r@[k]@),
        joined(texts(r@)).len() <= sql@.len(),
        sql@ == joined(texts(r@)) + sql@.subrange(joined(texts(r@)).len() as int, sql@.len() as int),
        !sql@.subrange(joined(texts(r@)).len() as int, sql@.len() as int).contains(';'),
{
    let n = sql.unicode_len();
    let mut r: Vec<String> = Vec::new();
    let mut start: usize = 0;
    let mut i: usize = 0;
    while i < n
        invariant
            n == sql@.len(),
            start <= i <= n,
            joined(texts(r@)) == sql@.subrange(0, start as int),
            forall|k: int| 0 <= k < r@.len() ==> is_statement(#[trigger] r@[k]@),
            forall|j: int| start <= j < i ==> sql@[j] != ';',
        decreases n - i,
    {
        if sql.get_char(i) == ';' {
            let stmt = sql.substring_char(start, i + 1);
            let ghost before = texts(r@);
            r.push(String::from_str(stmt));
            proof {
                assert(texts(r@) =~= before.push(stmt@));
                assert(texts(r@).drop_last() =~= before);
                assert(sql@.subrange(0, i + 1) =~= sql@.subrange(0, start as int) + stmt@);
            }
            start = i + 1;
        }
        i = i + 1;
    }
    proof {
        let rest = sql@.subrange(start as int, n as int);
        assert(sql@ =~= sql@.subrange(0, start as int) + rest);
        assert forall|j: int| 0 <= j < rest.len() implies rest[j] != ';' by {
            assert(rest[j] == sql@[start + j]);
        }
    }
    r
}


/// Whether a migration runs: no migration with its checksum is recorded.
pub fn needs_run(recorded: &Vec<String>, checksum: &str) -> (r: bool)
    ensures
        r == !texts(recorded@).contains(checksum@),
{
    let mut i: usize = 0;
    while i < recorded.len()
        invariant
            i <= recorded@.len(),
            forall|j: int| 0 <= j < i ==> recorded@[j]@ != checksum@,
        decreases recorded.len() - i,
    {
        if str_eq(recorded[i].as_str(), checksum) {
            assert(texts(recorded@)[i as int] == checksum@);
            return false;
        }
        i = i + 1;
    }
    proof {
        if texts(recorded@).contains(checksum@) {
            let j = choose|j: int| 0 <= j < texts(recorded@).len() && texts(recorded@)[j] == checksum@;
            assert(recorded@[j]@ == checksum@);
        }
    }
    true
}

/// The number of a migration's steps recorded as applied, given whether
/// each step ran: the steps before the first that failed. The steps after
/// a failure are not run.
pub open spec fn applied_count(outcomes: Seq<bool>) -> nat
    decreases outcomes.len(),
{
    if outcomes.len() == 0 || !outcomes[0] {
        0
    } else {
        1 + applied_count(outcomes.drop_first())
    }
}

/// The steps recorded as applied: the index of the first failed step, or
/// all of them.
pub fn steps_applied(outcomes: &Vec<bool>) -> (r: usize)
    ensures
        r == applied_count(outcomes@),
        r <= outcomes@.len(),
        forall|j: int| 0 <= j < r ==> outcomes@[j],
        r < outcomes@.len() ==> !outcomes@[r as int],
{
    let mut i: usize = 0;
    assert(outcomes@.subrange(0, outcomes@.len() as int) =~= outcomes@);
    while i < outcomes.len() && outcomes[i]
        invariant
            i <= outcomes@.len(),
            forall|j: int| 0 <= j < i ==> outcomes@[j],
            applied_count(outcomes@) == i + applied_count(outcomes@.subrange(i as int, outcomes@.len() as int)),
        decreases outcomes.len() - i,
    {
        proof {
            let t = outcomes@.subrange(i as int, outcomes@.len() as int);
            assert(t.drop_first() =~= outcomes@.subrange(i + 1, outcomes@.len() as int));
            assert(t[0] == outcomes@[i as int]);
        }
        i = i + 1;
    }
    proof {
        let t = outcomes@.subrange(i as int, outcomes@.len() as int);
        if i < outcomes@.len() {
            assert(t[0] == outcomes@[i as int]);
        }
    }
    i
}


/// A checksum's text holds only lowercase hexadecimal digits.
pub proof fn lemma_hex_lower_digits(bytes: Seq<u8>)
    ensures
        forall|i: int|
            0 <= i < hex_lower(bytes).len() ==> ('0' <= #[trigger] hex_lower(bytes)[i] <= '9') || ('a'
                <= hex_lower(bytes)[i] <= 'f'),
    decreases bytes.len(),
{
    if bytes.len() > 0 {
        lemma_hex_lower_digits(bytes.drop_last());
        let b = bytes.last();
        let prev = hex_lower(bytes.drop_last());
        let h = hex_lower(bytes);
        assert(b as int / 16 < 16);
        assert forall|i: int| 0 <= i < h.len() implies ('0' <= #[trigger] h[i] <= '9') || ('a' <= h[i] <= 'f') by {
            if i < prev.len() {
                assert(h[i] == prev[i]);
            } else {
                let d = if i == prev.len() { b as int / 16 } else { b as int % 16 };
                assert(h[i] == hex_digit(d));
                assert(0 <= d < 16);
                if d < 10 {
                    assert(((d + 48) as u8) as char == h[i]);
                } else {
                    assert(((d + 87) as u8) as char == h[i]);
                }
            }
        }
    }
}
} // verus!
