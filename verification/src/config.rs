//! The service's configuration values. Reading them from the process
//! environment happens outside the library; the library only holds the
//! values and formats the bind address.

use vstd::prelude::*;
use vstd::string::StringExecFns;
use crate::text::string_from_ascii;

verus! {

/// Bind host and port, cache backend URL, upstream feed URL, and the
/// update schedule expression.
#[derive(Debug, Clone)]
pub struct Config {
    pub server_host: String,
    pub server_port: u16,
    pub redis_url: String,
    pub ecb_url: String,
    pub update_cron: String,
}

/// The decimal digits of `n`, most significant first, as bytes.
pub open spec fn dec_bytes(n: nat) -> Seq<u8>
    decreases n,
{
    if n < 10 {
        seq![(48 + n) as u8]
    } else {
        dec_bytes(n / 10).push((48 + n % 10) as u8)
    }
}

/// The decimal digits of `n`, most significant first, as characters.
pub open spec fn dec_chars(n: nat) -> Seq<char> {
    dec_bytes(n).map_values(|b: u8| b as char)
}

proof fn lemma_dec_bytes_ascii(n: nat)
    ensures
        forall|i: int| 0 <= i < dec_bytes(n).len() ==> 48 <= #[trigger] dec_bytes(n)[i] <= 57,
    decreases n,
{
    if n < 10 {
        assert(dec_bytes(n)[0] == (48 + n) as u8);
    } else {
        lemma_dec_bytes_ascii(n / 10);
        assert(dec_bytes(n) == dec_bytes(n / 10).push((48 + n % 10) as u8));
        assert forall|i: int| 0 <= i < dec_bytes(n).len() implies 48 <= #[trigger] dec_bytes(
            n,
        )[i] <= 57 by {
            if i < dec_bytes(n / 10).len() {
                assert(dec_bytes(n)[i] == dec_bytes(n / 10)[i]);
            } else {
                assert(dec_bytes(n)[i] == (48 + n % 10) as u8);
            }
        }
    }
}

/// Append the decimal digits of `n` to `out`.
fn push_digits(n: u16, out: &mut Vec<u8>)
    ensures
        final(out)@ == old(out)@ + dec_bytes(n as nat),
    decreases n,
{
    if n < 10 {
        out.push(48 + (n as u8));
        proof {
            assert(final(out)@ =~= old(out)@ + dec_bytes(n as nat));
        }
    } else {
        push_digits(n / 10, out);
        out.push(48 + ((n % 10) as u8));
        proof {
            assert(final(out)@ =~= old(out)@ + dec_bytes(n as nat));
        }
    }
}

impl Config {
    /// The address the server binds: `host:port`.
    pub fn server_address(&self) -> (r: String)
        ensures
            r@ == self.server_host@ + seq![':'] + dec_chars(self.server_port as nat),
    {
        let mut tail: Vec<u8> = Vec::new();
        tail.push(58);
        push_digits(self.server_port, &mut tail);
        proof {
            lemma_dec_bytes_ascii(self.server_port as nat);
            assert(tail@ == seq![58u8] + dec_bytes(self.server_port as nat));
            assert forall|i: int| 0 <= i < tail@.len() implies tail@[i] < 128 by {
                if i > 0 {
                    assert(tail@[i] == dec_bytes(self.server_port as nat)[i - 1]);
                }
            }
        }
        let tail_s = string_from_ascii(tail);
        let r = self.server_host.clone().concat(tail_s.as_str());
        proof {
            assert(tail_s@ =~= seq![':'] + dec_chars(self.server_port as nat));
            assert(r@ =~= self.server_host@ + seq![':'] + dec_chars(self.server_port as nat));
        }
        r
    }
}

} // verus!
