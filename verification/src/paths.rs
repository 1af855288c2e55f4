//! Deterministic backing-file paths: the working directory, one file per
//! thread index, the index zero-padded to width six. Provisioning creates
//! exactly these paths and cleanup removes exactly these paths.

use vstd::prelude::*;
use vstd::string::StringExecFns;

verus! {

/// The working directory that holds every backing file.
pub open spec fn spec_dirname() -> Seq<char> {
    "hdd_speed_test_tmpdir"@
}

/// The stem of every backing file's name, up to the decimal index.
pub open spec fn spec_file_stem() -> Seq<char> {
    "testfile.dat-"@
}

/// The decimal digit character for a value below ten.
pub open spec fn spec_digit_char(d: int) -> char {
    if d == 0 {
        '0'
    } else if d == 1 {
        '1'
    } else if d == 2 {
        '2'
    } else if d == 3 {
        '3'
    } else if d == 4 {
        '4'
    } else if d == 5 {
        '5'
    } else if d == 6 {
        '6'
    } else if d == 7 {
        '7'
    } else if d == 8 {
        '8'
    } else {
        '9'
    }
}

/// The numeric value of a decimal digit character.
pub open spec fn spec_digit_val(c: char) -> int {
    if c == '0' {
        0
    } else if c == '1' {
        1
    } else if c == '2' {
        2
    } else if c == '3' {
        3
    } else if c == '4' {
        4
    } else if c == '5' {
        5
    } else if c == '6' {
        6
    } else if c == '7' {
        7
    } else if c == '8' {
        8
    } else {
        9
    }
}

/// The decimal digits of `n`, most significant first, without leading
/// zeros.
pub open spec fn spec_digits(n: nat) -> Seq<char>
    decreases n,
{
    if n < 10 {
        seq![spec_digit_char(n as int)]
    } else {
        spec_digits(n / 10).push(spec_digit_char((n % 10) as int))
    }
}

/// `k` zero characters.
pub open spec fn spec_zeros(k: int) -> Seq<char> {
    Seq::new(
        if k >= 0 {
            k as nat
        } else {
            0
        },
        |j: int| '0',
    )
}

/// The decimal digits of `n`, zero-padded on the left to width six.
pub open spec fn spec_padded(n: nat) -> Seq<char> {
    if spec_digits(n).len() < 6 {
        spec_zeros(6 - spec_digits(n).len()) + spec_digits(n)
    } else {
        spec_digits(n)
    }
}

/// The deterministic path of the backing file for thread index `i`.
pub open spec fn spec_file_path(i: nat) -> Seq<char> {
    spec_dirname() + "/"@ + spec_file_stem() + spec_padded(i)
}

/// The value read back from a digit sequence, most significant first.
pub open spec fn spec_digits_val(s: Seq<char>) -> int
    decreases s.len(),
{
    if s.len() == 0 {
        0
    } else {
        spec_digits_val(s.drop_last()) * 10 + spec_digit_val(s.last())
    }
}

/// Reading the digits of `n` back gives `n`.
pub proof fn lemma_digits_roundtrip(n: nat)
    ensures
        spec_digits_val(spec_digits(n)) == n,
    decreases n,
{
    if n < 10 {
        let s = spec_digits(n);
        assert(s.drop_last() =~= Seq::<char>::empty());
        assert(spec_digits_val(Seq::<char>::empty()) == 0);
        assert(s.last() == spec_digit_char(n as int));
        assert(spec_digit_val(spec_digit_char(n as int)) == n);
    } else {
        lemma_digits_roundtrip(n / 10);
        let s = spec_digits(n);
        assert(s.drop_last() =~= spec_digits(n / 10));
        assert(s.last() == spec_digit_char((n % 10) as int));
        assert(spec_digit_val(spec_digit_char((n % 10) as int)) == n % 10);
    }
}

/// A run of zeros reads back as zero.
proof fn lemma_zeros_val(k: int)
    ensures
        spec_digits_val(spec_zeros(k)) == 0,
    decreases
            (if k >= 0 {
                k
            } else {
                0
            }),
{
    if k > 0 {
        lemma_zeros_val(k - 1);
        assert(spec_zeros(k).drop_last() =~= spec_zeros(k - 1));
        assert(spec_zeros(k).last() == '0');
    }
}

/// Leading zeros do not change the value read back.
proof fn lemma_zeros_prefix_val(k: int, d: Seq<char>)
    ensures
        spec_digits_val(spec_zeros(k) + d) == spec_digits_val(d),
    decreases d.len(),
{
    if d.len() == 0 {
        assert(spec_zeros(k) + d =~= spec_zeros(k));
        lemma_zeros_val(k);
    } else {
        assert((spec_zeros(k) + d).drop_last() =~= spec_zeros(k) + d.drop_last());
        assert((spec_zeros(k) + d).last() == d.last());
        lemma_zeros_prefix_val(k, d.drop_last());
    }
}

/// Reading the zero-padded digits of `n` back gives `n`.
pub proof fn lemma_padded_roundtrip(n: nat)
    ensures
        spec_digits_val(spec_padded(n)) == n,
{
    lemma_digits_roundtrip(n);
    if spec_digits(n).len() < 6 {
        lemma_zeros_prefix_val(6 - spec_digits(n).len(), spec_digits(n));
    }
}

/// Cleanup touches exactly the provisioned files and nothing outside the
/// working directory: distinct thread indices give distinct paths, and
/// every path starts with the working directory's name and the separator.
pub proof fn lemma_cleanup_exact(i: nat, j: nat)
    ensures
        i != j ==> spec_file_path(i) != spec_file_path(j),
        spec_file_path(i).take(spec_dirname().len() as int + 1) == spec_dirname() + "/"@,
{
    let p = spec_dirname() + "/"@ + spec_file_stem();
    reveal_strlit("/");
    assert(spec_file_path(i).take(spec_dirname().len() as int + 1) =~= spec_dirname() + "/"@);
    if i != j && spec_file_path(i) == spec_file_path(j) {
        assert(spec_padded(i) =~= spec_file_path(i).skip(p.len() as int));
        assert(spec_padded(j) =~= spec_file_path(j).skip(p.len() as int));
        lemma_padded_roundtrip(i);
        lemma_padded_roundtrip(j);
        assert(false);
    }
}

/// Appends the character of one decimal digit.
fn push_digit(s: &mut String, d: u64)
    requires
        d < 10,
    ensures
        final(s)@ == old(s)@ + seq![spec_digit_char(d as int)],
{
    proof {
        reveal_strlit("0");
        reveal_strlit("1");
        reveal_strlit("2");
        reveal_strlit("3");
        reveal_strlit("4");
        reveal_strlit("5");
        reveal_strlit("6");
        reveal_strlit("7");
        reveal_strlit("8");
        reveal_strlit("9");
    }
    if d == 0 {
        s.append("0");
        proof {
            assert("0"@ =~= seq![spec_digit_char(d as int)]);
        }
    } else if d == 1 {
        s.append("1");
        proof {
            assert("1"@ =~= seq![spec_digit_char(d as int)]);
        }
    } else if d == 2 {
        s.append("2");
        proof {
            assert("2"@ =~= seq![spec_digit_char(d as int)]);
        }
    } else if d == 3 {
        s.append("3");
        proof {
            assert("3"@ =~= seq![spec_digit_char(d as int)]);
        }
    } else if d == 4 {
        s.append("4");
        proof {
            assert("4"@ =~= seq![spec_digit_char(d as int)]);
        }
    } else if d == 5 {
        s.append("5");
        proof {
            assert("5"@ =~= seq![spec_digit_char(d as int)]);
        }
    } else if d == 6 {
        s.append("6");
        proof {
            assert("6"@ =~= seq![spec_digit_char(d as int)]);
        }
    } else if d == 7 {
        s.append("7");
        proof {
            assert("7"@ =~= seq![spec_digit_char(d as int)]);
        }
    } else if d == 8 {
        s.append("8");
        proof {
            assert("8"@ =~= seq![spec_digit_char(d as int)]);
        }
    } else {
        s.append("9");
        proof {
            assert("9"@ =~= seq![spec_digit_char(d as int)]);
        }
    }
}

/// Appends the decimal digits of `m`, most significant first.
fn push_digits(s: &mut String, m: u64)
    ensures
        final(s)@ == old(s)@ + spec_digits(m as nat),
    decreases m,
{
    if m >= 10 {
        push_digits(s, m / 10);
        push_digit(s, m % 10);
        proof {
            assert(old(s)@ + spec_digits((m / 10) as nat) + seq![
                spec_digit_char((m % 10) as int),
            ] =~= old(s)@ + spec_digits(m as nat));
        }
    } else {
        push_digit(s, m);
        proof {
            assert(old(s)@ + seq![spec_digit_char(m as int)] =~= old(s)@ + spec_digits(m as nat));
        }
    }
}

/// How many digits a decimal representation has, by magnitude.
proof fn lemma_digits_len(m: nat)
    ensures
        m < 10 ==> spec_digits(m).len() == 1,
        10 <= m < 100 ==> spec_digits(m).len() == 2,
        100 <= m < 1000 ==> spec_digits(m).len() == 3,
        1000 <= m < 10000 ==> spec_digits(m).len() == 4,
        10000 <= m < 100000 ==> spec_digits(m).len() == 5,
        100000 <= m ==> spec_digits(m).len() >= 6,
    decreases m,
{
    if m >= 10 {
        lemma_digits_len(m / 10);
    }
}

/// The name of the working directory.
pub fn dirname() -> (s: &'static str)
    ensures
        s@ == spec_dirname(),
{
    "hdd_speed_test_tmpdir"
}

/// Derives the backing-file path for one thread index.
pub fn backing_file_path(i: u64) -> (s: String)
    ensures
        s@ == spec_file_path(i as nat),
{
    let mut s = String::new();
    s.append("hdd_speed_test_tmpdir");
    s.append("/");
    s.append("testfile.dat-");
    proof {
        lemma_digits_len(i as nat);
        reveal_strlit("00000");
        reveal_strlit("0000");
        reveal_strlit("000");
        reveal_strlit("00");
        reveal_strlit("0");
    }
    if i < 10 {
        s.append("00000");
        proof {
            assert("00000"@ =~= spec_zeros(5));
        }
    } else if i < 100 {
        s.append("0000");
        proof {
            assert("0000"@ =~= spec_zeros(4));
        }
    } else if i < 1000 {
        s.append("000");
        proof {
            assert("000"@ =~= spec_zeros(3));
        }
    } else if i < 10000 {
        s.append("00");
        proof {
            assert("00"@ =~= spec_zeros(2));
        }
    } else if i < 100000 {
        s.append("0");
        proof {
            assert("0"@ =~= spec_zeros(1));
        }
    }
    push_digits(&mut s, i);
    proof {
        assert(s@ =~= spec_file_path(i as nat));
    }
    s
}

/// The list of every backing-file path of a run, in thread-index order.
/// The provisioner creates exactly these files; cleanup removes exactly
/// these files and then the working directory.
pub fn backing_file_paths(threadnums: u64) -> (v: Vec<String>)
    ensures
        v@.len() == threadnums,
        forall|t: int| 0 <= t < v@.len() ==> v@[t]@ == spec_file_path(t as nat),
{
    let mut v: Vec<String> = Vec::new();
    let mut i: u64 = 0;
    while i < threadnums
        invariant
            0 <= i <= threadnums,
            v@.len() == i,
            forall|t: int| 0 <= t < v@.len() ==> v@[t]@ == spec_file_path(t as nat),
        decreases threadnums - i,
    {
        v.push(backing_file_path(i));
        i = i + 1;
    }
    v
}

} // verus!
