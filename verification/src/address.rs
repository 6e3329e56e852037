//! Dotted-quad IPv4 addresses: the parsing rules of `std::net::Ipv4Addr`
//! (four decimal octets 0–255, no leading zeros) and the unicast check that
//! every command target must pass.

use vstd::prelude::*;

verus! {

/// The four octets of an IPv4 address.
pub type Octets = (u8, u8, u8, u8);

/// Why a device address was refused.
#[derive(Debug, PartialEq, Eq, Clone, Copy)]
pub enum AddrError {
    /// The text is not a dotted-quad IPv4 address.
    InvalidIp,
    /// The address is the broadcast, a multicast or the unspecified address.
    NotUnicast,
}

/// `c` is an ASCII decimal digit.
pub open spec fn is_digit(c: char) -> bool {
    '0' <= c && c <= '9'
}

/// The decimal value of a digit string.
pub open spec fn dec_value(f: Seq<char>) -> int
    decreases f.len(),
{
    if f.len() == 0 {
        0
    } else {
        dec_value(f.drop_last()) * 10 + (f.last() as int - '0' as int)
    }
}

/// `f` is one octet: one to three digits, no leading zero unless it is "0",
/// value at most 255.
pub open spec fn valid_octet(f: Seq<char>) -> bool {
    &&& 1 <= f.len() <= 3
    &&& forall|i: int| 0 <= i < f.len() ==> #[trigger] is_digit(f[i])
    &&& (f[0] != '0' || f.len() == 1)
    &&& dec_value(f) <= 255
}

/// `s` split at every '.': always at least one (possibly empty) field.
pub open spec fn split_dots(s: Seq<char>) -> Seq<Seq<char>>
    decreases s.len(),
{
    if s.len() == 0 {
        seq![Seq::empty()]
    } else {
        let r = split_dots(s.drop_last());
        if s.last() == '.' {
            r.push(Seq::empty())
        } else {
            r.update(r.len() - 1, r.last().push(s.last()))
        }
    }
}

/// The address written by `s`, if `s` is exactly four valid octets separated
/// by dots.
pub open spec fn parse_ipv4(s: Seq<char>) -> Option<Octets> {
    let f = split_dots(s);
    if f.len() == 4 && valid_octet(f[0]) && valid_octet(f[1]) && valid_octet(f[2])
        && valid_octet(f[3]) {
        Some(
            (
                dec_value(f[0]) as u8,
                dec_value(f[1]) as u8,
                dec_value(f[2]) as u8,
                dec_value(f[3]) as u8,
            ),
        )
    } else {
        None
    }
}

/// The broadcast address 255.255.255.255.
pub open spec fn is_broadcast(o: Octets) -> bool {
    o == (255u8, 255u8, 255u8, 255u8)
}

/// A multicast address: first octet in 224..=239.
pub open spec fn is_multicast(o: Octets) -> bool {
    224 <= o.0 <= 239
}

/// The unspecified address 0.0.0.0.
pub open spec fn is_unspecified(o: Octets) -> bool {
    o == (0u8, 0u8, 0u8, 0u8)
}

/// A unicast address: none of the above.
pub open spec fn is_unicast(o: Octets) -> bool {
    !is_broadcast(o) && !is_multicast(o) && !is_unspecified(o)
}

proof fn lemma_split_nonempty(s: Seq<char>)
    ensures
        split_dots(s).len() >= 1,
    decreases s.len(),
{
    if s.len() > 0 {
        lemma_split_nonempty(s.drop_last());
    }
}

/// The value of one field, if it is a valid octet.
fn octet_value(f: &Vec<char>) -> (res: Option<u8>)
    ensures
        res is Some <==> valid_octet(f@),
        res matches Some(v) ==> v == dec_value(f@),
{
    let n = f.len();
    if n < 1 || n > 3 {
        return None;
    }
    let mut v: u32 = 0;
    let mut i: usize = 0;
    while i < n
        invariant
            1 <= n <= 3,
            n == f@.len(),
            i <= n,
            forall|k: int| 0 <= k < i ==> #[trigger] is_digit(f@[k]),
            v == dec_value(f@.subrange(0, i as int)),
            v < 1000,
        decreases n - i,
    {
        let c = f[i];
        if !('0' <= c && c <= '9') {
            assert(!is_digit(f@[i as int]));
            return None;
        }
        assert(f@.subrange(0, i as int + 1).drop_last() =~= f@.subrange(0, i as int));
        assert(dec_value(f@.subrange(0, i as int)) < 100) by {
            assert(dec_value(f@.subrange(0, i as int)) <= 99) by {
                lemma_dec_bound(f@.subrange(0, i as int));
            }
        }
        v = v * 10 + (c as u32 - '0' as u32);
        i = i + 1;
    }
    assert(f@.subrange(0, n as int) =~= f@);
    if f[0] == '0' && n != 1 {
        return None;
    }
    if v > 255 {
        return None;
    }
    Some(v as u8)
}

proof fn lemma_dec_bound(f: Seq<char>)
    requires
        f.len() <= 2,
        forall|k: int| 0 <= k < f.len() ==> #[trigger] is_digit(f[k]),
    ensures
        0 <= dec_value(f) <= 99,
        f.len() <= 1 ==> dec_value(f) <= 9,
    decreases f.len(),
{
    if f.len() > 0 {
        let g = f.drop_last();
        assert forall|k: int| 0 <= k < g.len() implies #[trigger] is_digit(g[k]) by {
            assert(g[k] == f[k]);
        }
        lemma_dec_bound(g);
        assert(is_digit(f[f.len() - 1]));
    }
}

/// Parses dotted-quad IPv4 text by the rules of `std::net::Ipv4Addr`.
pub fn parse_ipv4_text(s: &str) -> (res: Option<Octets>)
    ensures
        res == parse_ipv4(s@),
{
    let n = s.unicode_len();
    let mut done_count: usize = 0;
    let ghost mut done: Seq<Seq<char>> = Seq::empty();
    let mut octets: Vec<u8> = Vec::new();
    let mut cur: Vec<char> = Vec::new();
    let mut ok = true;
    let mut i: usize = 0;
    while i < n
        invariant
            n == s@.len(),
            i <= n,
            split_dots(s@.subrange(0, i as int)) == done.push(cur@),
            done_count == done.len(),
            ok == (done.len() <= 3 && forall|k: int| 0 <= k < done.len() ==> #[trigger] valid_octet(done[k])),
            ok ==> octets@.len() == done.len(),
            ok ==> forall|k: int| 0 <= k < done.len() ==> #[trigger] octets@[k] == dec_value(done[k]),
            done_count <= i,
        decreases n - i,
    {
        let c = s.get_char(i);
        let ghost pre = s@.subrange(0, i as int);
        assert(s@.subrange(0, i as int + 1).drop_last() =~= pre);
        assert(s@.subrange(0, i as int + 1).last() == c);
        proof {
            lemma_split_nonempty(pre);
        }
        if c == '.' {
            let v = octet_value(&cur);
            let ghost old_done = done;
            proof {
                done = done.push(cur@);
            }
            if ok {
                match v {
                    Some(x) => {
                        if done_count < 3 {
                            octets.push(x);
                        } else {
                            ok = false;
                        }
                    },
                    None => {
                        ok = false;
                    },
                }
            }
            done_count = done_count + 1;
            cur = Vec::new();
            assert(split_dots(s@.subrange(0, i as int + 1)) =~= done.push(cur@));
            assert(ok == (done.len() <= 3 && forall|k: int| 0 <= k < done.len() ==> #[trigger] valid_octet(done[k]))) by {
                if ok {
                    assert forall|k: int| 0 <= k < done.len() implies #[trigger] valid_octet(done[k]) by {
                        if k < old_done.len() {
                            assert(done[k] == old_done[k]);
                        }
                    }
                } else {
                    if old_done.len() <= 3 && forall|k: int| 0 <= k < old_done.len() ==> #[trigger] valid_octet(old_done[k]) {
                        if done.len() <= 3 {
                            assert(!valid_octet(done[done.len() - 1]));
                        }
                    } else if old_done.len() <= 3 {
                        let k = choose|k: int| 0 <= k < old_done.len() && !valid_octet(old_done[k]);
                        assert(done[k] == old_done[k]);
                    }
                }
            }
            assert(ok ==> forall|k: int| 0 <= k < done.len() ==> #[trigger] octets@[k] == dec_value(done[k])) by {
                if ok {
                    assert forall|k: int| 0 <= k < done.len() implies #[trigger] octets@[k] == dec_value(done[k]) by {
                        if k < old_done.len() {
                            assert(done[k] == old_done[k]);
                        }
                    }
                }
            }
        } else {
            cur.push(c);
            assert(split_dots(s@.subrange(0, i as int + 1)) =~= done.push(cur@));
        }
        i = i + 1;
    }
    assert(s@.subrange(0, n as int) =~= s@);
    let last = octet_value(&cur);
    if !ok || done_count != 3 {
        return None;
    }
    match last {
        Some(d) => Some((octets[0], octets[1], octets[2], d)),
        None => None,
    }
}

/// Parses the address of a device that commands are sent to: it must be a
/// valid IPv4 address and a unicast one.
pub fn parse_device_addr(ip: &str) -> (res: Result<Octets, AddrError>)
    ensures
        parse_ipv4(ip@) is None <==> res == Err::<Octets, AddrError>(AddrError::InvalidIp),
        parse_ipv4(ip@) matches Some(o) ==> (if is_unicast(o) {
            res == Ok::<Octets, AddrError>(o)
        } else {
            res == Err::<Octets, AddrError>(AddrError::NotUnicast)
        }),
{
    match parse_ipv4_text(ip) {
        None => Err(AddrError::InvalidIp),
        Some(o) => {
            let broadcast = o.0 == 255 && o.1 == 255 && o.2 == 255 && o.3 == 255;
            let multicast = 224 <= o.0 && o.0 <= 239;
            let unspecified = o.0 == 0 && o.1 == 0 && o.2 == 0 && o.3 == 0;
            if broadcast || multicast || unspecified {
                Err(AddrError::NotUnicast)
            } else {
                Ok(o)
            }
        },
    }
}

} // verus!
