use vstd::prelude::*;

verus! {

/// Everything the proxy is told at startup: where to listen, where the
/// backend database lives, and how many backend connections may exist at
/// once. Loading these values from the process environment happens outside
/// the verified core; the core only demands that the capacity be positive.
#[derive(Debug)]
pub struct Config {
    pub listen_addr: String,
    pub listen_port: u16,
    pub pg_host: String,
    pub pg_port: u16,
    pub max_connections: usize,
}

impl Config {
    /// A configuration is usable only with a positive pool capacity.
    pub open spec fn valid(self) -> bool {
        self.max_connections >= 1
    }

    /// Runtime check of `valid`, for unverified callers that must meet the
    /// pool constructor's precondition.
    pub fn is_valid(&self) -> (r: bool)
        ensures
            r == self.valid(),
    {
        self.max_connections >= 1
    }
}

/// Whether the byte is an ASCII decimal digit.
pub open spec fn is_ascii_digit(b: u8) -> bool {
    0x30 <= b <= 0x39
}

/// Whether every byte of the string is an ASCII decimal digit.
pub open spec fn all_digits(s: Seq<u8>) -> bool {
    forall|i: int| 0 <= i < s.len() ==> is_ascii_digit(#[trigger] s[i])
}

/// The number a string of decimal digits denotes, most significant first.
pub open spec fn digits_value(s: Seq<u8>) -> int
    decreases s.len(),
{
    if s.len() == 0 {
        0
    } else {
        digits_value(s.drop_last()) * 10 + (s.last() - 0x30)
    }
}

proof fn lemma_all_digits_take(s: Seq<u8>, n: int)
    requires
        all_digits(s),
        0 <= n <= s.len(),
    ensures
        all_digits(s.take(n)),
{
    assert forall|i: int| 0 <= i < s.take(n).len() implies is_ascii_digit(
        #[trigger] s.take(n)[i],
    ) by {
        assert(s.take(n)[i] == s[i]);
    }
}

proof fn lemma_digits_value_nonneg(s: Seq<u8>)
    requires
        all_digits(s),
    ensures
        digits_value(s) >= 0,
    decreases s.len(),
{
    if s.len() > 0 {
        lemma_all_digits_take(s, s.len() - 1);
        lemma_digits_value_nonneg(s.drop_last());
    }
}

proof fn lemma_digits_value_prefix_le(s: Seq<u8>, n: int)
    requires
        all_digits(s),
        0 <= n <= s.len(),
    ensures
        digits_value(s.take(n)) <= digits_value(s),
    decreases s.len() - n,
{
    if n < s.len() {
        lemma_digits_value_prefix_le(s, n + 1);
        assert(s.take(n + 1).drop_last() =~= s.take(n));
        assert(s.take(n + 1).last() == s[n]);
        lemma_all_digits_take(s, n);
        lemma_digits_value_nonneg(s.take(n));
    } else {
        assert(s.take(n) =~= s);
    }
}

/// Parse a nonempty string of decimal digits into a port number. The
/// result is the denoted value exactly when the string is nonempty, all
/// digits, and the value fits in sixteen bits; anything else is rejected.
pub fn parse_u16(s: &[u8]) -> (r: Option<u16>)
    ensures
        (r matches Some(v) ==> v as int == digits_value(s@)),
        (r is Some) <==> (s@.len() > 0 && all_digits(s@) && digits_value(s@) <= u16::MAX),
{
    if s.len() == 0 {
        return None;
    }
    let mut acc: u32 = 0;
    let mut i: usize = 0;
    while i < s.len()
        invariant
            0 <= i <= s@.len(),
            all_digits(s@.take(i as int)),
            acc as int == digits_value(s@.take(i as int)),
            acc <= 0xFFFF,
        decreases s@.len() - i,
    {
        let b = s[i];
        if b < 0x30 || b > 0x39 {
            return None;
        }
        let d: u32 = (b - 0x30) as u32;
        let next: u32 = acc * 10 + d;
        proof {
            assert(s@.take(i as int + 1).drop_last() =~= s@.take(i as int));
            assert(s@.take(i as int + 1).last() == s@[i as int]);
            assert forall|k: int| 0 <= k < s@.take(i as int + 1).len() implies is_ascii_digit(
                #[trigger] s@.take(i as int + 1)[k],
            ) by {
                assert(s@.take(i as int + 1)[k] == s@[k]);
            }
        }
        if next > 0xFFFF {
            proof {
                if all_digits(s@) {
                    lemma_digits_value_prefix_le(s@, i as int + 1);
                }
            }
            return None;
        }
        acc = next;
        i = i + 1;
    }
    proof {
        assert(s@.take(i as int) =~= s@);
    }
    Some(acc as u16)
}

/// Parse a nonempty string of decimal digits into a pool capacity. The
/// result is the denoted value exactly when the string is nonempty, all
/// digits, and the value fits in sixty-four bits; anything else is
/// rejected.
pub fn parse_u64(s: &[u8]) -> (r: Option<u64>)
    ensures
        (r matches Some(v) ==> v as int == digits_value(s@)),
        (r is Some) <==> (s@.len() > 0 && all_digits(s@) && digits_value(s@) <= u64::MAX),
{
    if s.len() == 0 {
        return None;
    }
    let cutoff: u64 = u64::MAX / 10;
    let last_digit: u64 = u64::MAX % 10;
    let mut acc: u64 = 0;
    let mut i: usize = 0;
    while i < s.len()
        invariant
            0 <= i <= s@.len(),
            all_digits(s@.take(i as int)),
            acc as int == digits_value(s@.take(i as int)),
            cutoff as int == u64::MAX as int / 10,
            last_digit as int == u64::MAX as int % 10,
        decreases s@.len() - i,
    {
        let b = s[i];
        if b < 0x30 || b > 0x39 {
            return None;
        }
        let d: u64 = (b - 0x30) as u64;
        proof {
            assert(s@.take(i as int + 1).drop_last() =~= s@.take(i as int));
            assert(s@.take(i as int + 1).last() == s@[i as int]);
            assert forall|k: int| 0 <= k < s@.take(i as int + 1).len() implies is_ascii_digit(
                #[trigger] s@.take(i as int + 1)[k],
            ) by {
                assert(s@.take(i as int + 1)[k] == s@[k]);
            }
            vstd::arithmetic::div_mod::lemma_fundamental_div_mod(u64::MAX as int, 10);
            assert(10 * (cutoff as int) + (last_digit as int) == u64::MAX as int);
        }
        if acc > cutoff || (acc == cutoff && d > last_digit) {
            proof {
                assert(acc as int * 10 + d as int > u64::MAX as int);
                if all_digits(s@) {
                    lemma_digits_value_prefix_le(s@, i as int + 1);
                }
            }
            return None;
        }
        proof {
            assert(acc as int * 10 + d as int <= u64::MAX as int);
        }
        acc = acc * 10 + d;
        i = i + 1;
    }
    proof {
        assert(s@.take(i as int) =~= s@);
    }
    Some(acc)
}

} // verus!
