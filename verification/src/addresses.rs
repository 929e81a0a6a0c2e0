//! The text forms of IP and socket addresses, as the standard library
//! displays them.
use vstd::prelude::*;

use crate::network::{IpAddress, SocketAddress};
use crate::security::{hex_char, hex_digit};
use crate::text::{append_chars, decimal, push_decimal, string_from_chars};

verus! {

/// Dotted decimal `a.b.c.d` of an IPv4 address.
pub open spec fn ipv4_text(a: u32) -> Seq<char> {
    decimal((a / 0x100_0000) as nat) + seq!['.'] + decimal(((a / 0x1_0000) % 0x100) as nat) + seq!['.']
        + decimal(((a / 0x100) % 0x100) as nat) + seq!['.'] + decimal((a % 0x100) as nat)
}

/// Lowercase hexadecimal without leading zeros.
pub open spec fn hex_text(n: nat) -> Seq<char>
    decreases n,
{
    if n < 16 {
        seq![hex_digit(n)]
    } else {
        hex_text(n / 16).push(hex_digit(n % 16))
    }
}

/// The eight 16-bit segments of an IPv6 address, most significant first.
pub open spec fn segments(a: u128) -> Seq<u16> {
    Seq::new(8, |k: int| ((a >> ((112 - 16 * k) as u128)) & 0xffff) as u16)
}

/// Segments in hexadecimal, separated by `:`.
pub open spec fn groups_text(segs: Seq<u16>) -> Seq<char>
    decreases segs.len(),
{
    if segs.len() == 0 {
        Seq::empty()
    } else if segs.len() == 1 {
        hex_text(segs[0] as nat)
    } else {
        groups_text(segs.drop_last()) + seq![':'] + hex_text(segs.last() as nat)
    }
}

/// Scanning segments left to right: `(start, length)` of the first longest
/// run of zero segments so far, and of the run that ends here.
pub open spec fn zero_runs(segs: Seq<u16>) -> (int, int, int, int)
    decreases segs.len(),
{
    if segs.len() == 0 {
        (0, 0, 0, 0)
    } else {
        let (best_start, best_len, cur_start, cur_len) = zero_runs(segs.drop_last());
        if segs.last() == 0 {
            let start = if cur_len == 0 { segs.len() - 1 } else { cur_start };
            if cur_len + 1 > best_len {
                (start, cur_len + 1, start, cur_len + 1)
            } else {
                (best_start, best_len, start, cur_len + 1)
            }
        } else {
            (best_start, best_len, 0, 0)
        }
    }
}

/// RFC 5952 text of an IPv6 address: an IPv4-mapped address as
/// `::ffff:a.b.c.d`; otherwise the first longest run of two or more zero
/// segments shortened to `::`.
pub open spec fn ipv6_text(a: u128) -> Seq<char> {
    if a >> 32u128 == 0xffff {
        seq![':', ':', 'f', 'f', 'f', 'f', ':'] + ipv4_text((a % 0x1_0000_0000) as u32)
    } else {
        let segs = segments(a);
        let (start, len, _, _) = zero_runs(segs);
        if len > 1 {
            groups_text(segs.take(start)) + seq![':', ':'] + groups_text(segs.skip(start + len))
        } else {
            groups_text(segs)
        }
    }
}

pub open spec fn ip_text_spec(ip: IpAddress) -> Seq<char> {
    match ip {
        IpAddress::V4(a) => ipv4_text(a),
        IpAddress::V6(a) => ipv6_text(a),
    }
}

/// `ip:port`, with an IPv6 address in brackets.
pub open spec fn socket_text_spec(address: SocketAddress) -> Seq<char> {
    match address.ip {
        IpAddress::V4(a) => ipv4_text(a) + seq![':'] + decimal(address.port as nat),
        IpAddress::V6(a) => seq!['['] + ipv6_text(a) + seq![']', ':'] + decimal(address.port as nat),
    }
}

fn push_ipv4(out: &mut Vec<char>, a: u32)
    ensures
        final(out)@ == old(out)@ + ipv4_text(a),
{
    let ghost start = out@;
    push_decimal(out, (a / 0x100_0000) as u64);
    out.push('.');
    push_decimal(out, ((a / 0x1_0000) % 0x100) as u64);
    out.push('.');
    push_decimal(out, ((a / 0x100) % 0x100) as u64);
    out.push('.');
    push_decimal(out, (a % 0x100) as u64);
    proof {
        assert(out@ =~= start + ipv4_text(a));
    }
}

fn push_hex(out: &mut Vec<char>, n: u16)
    ensures
        final(out)@ == old(out)@ + hex_text(n as nat),
    decreases n,
{
    if n >= 16 {
        push_hex(out, n / 16);
    }
    let ghost before = out@;
    out.push(hex_char((n % 16) as u8));
    proof {
        if n >= 16 {
            assert(before + seq![hex_digit((n % 16) as nat)] =~= before.push(hex_digit((n % 16) as nat)));
        }
    }
}

proof fn lemma_groups_step(segs: Seq<u16>, from: int, to: int)
    requires
        0 <= from < to <= segs.len(),
    ensures
        groups_text(segs.subrange(from, to)) == if to - from == 1 {
            hex_text(segs[from] as nat)
        } else {
            groups_text(segs.subrange(from, to - 1)) + seq![':'] + hex_text(segs[to - 1] as nat)
        },
{
    let s = segs.subrange(from, to);
    if to - from > 1 {
        assert(s.drop_last() =~= segs.subrange(from, to - 1));
    }
}

/// Appends the segments `segs[from..to]` in hexadecimal, separated by `:`.
fn push_groups(out: &mut Vec<char>, segs: &Vec<u16>, from: usize, to: usize)
    requires
        from <= to <= segs@.len(),
    ensures
        final(out)@ == old(out)@ + groups_text(segs@.subrange(from as int, to as int)),
{
    let ghost start = out@;
    let mut i = from;
    proof {
        assert(segs@.subrange(from as int, from as int) =~= Seq::<u16>::empty());
    }
    while i < to
        invariant
            from <= i <= to <= segs@.len(),
            out@ == start + groups_text(segs@.subrange(from as int, i as int)),
        decreases to - i,
    {
        proof {
            lemma_groups_step(segs@, from as int, i + 1);
        }
        if i > from {
            out.push(':');
        }
        let ghost before = out@;
        push_hex(out, segs[i]);
        proof {
            if i > from {
                assert(out@ =~= start + groups_text(segs@.subrange(from as int, i + 1)));
            } else {
                assert(out@ =~= start + groups_text(segs@.subrange(from as int, i + 1)));
            }
        }
        i += 1;
    }
}

fn push_ipv6(out: &mut Vec<char>, a: u128)
    ensures
        final(out)@ == old(out)@ + ipv6_text(a),
{
    let ghost start = out@;
    if a >> 32u128 == 0xffff {
        let prefix: [char; 7] = [':', ':', 'f', 'f', 'f', 'f', ':'];
        append_chars(out, &prefix);
        push_ipv4(out, (a % 0x1_0000_0000) as u32);
        proof {
            assert(prefix@ =~= seq![':', ':', 'f', 'f', 'f', 'f', ':']);
            assert(out@ =~= start + ipv6_text(a));
        }
        return;
    }
    let mut segs: Vec<u16> = Vec::new();
    for k in 0..8u32
        invariant
            segs@ == segments(a).take(k as int),
    {
        segs.push(((a >> (112 - 16 * k) as u128) & 0xffff) as u16);
        proof {
            assert(segs@ =~= segments(a).take(k + 1));
        }
    }
    proof {
        assert(segments(a).take(8) =~= segments(a));
    }
    let ghost all = segs@;
    let mut best_start: usize = 0;
    let mut best_len: usize = 0;
    let mut cur_start: usize = 0;
    let mut cur_len: usize = 0;
    for i in 0..8usize
        invariant
            segs@ == all,
            all.len() == 8,
            zero_runs(all.take(i as int)) == (best_start as int, best_len as int, cur_start as int, cur_len as int),
            best_len <= i,
            cur_len <= i,
            best_start + best_len <= i,
            cur_start + cur_len <= i,
    {
        proof {
            assert(all.take(i + 1).drop_last() =~= all.take(i as int));
        }
        if segs[i] == 0 {
            if cur_len == 0 {
                cur_start = i;
            }
            cur_len += 1;
            if cur_len > best_len {
                best_start = cur_start;
                best_len = cur_len;
            }
        } else {
            cur_start = 0;
            cur_len = 0;
        }
    }
    proof {
        assert(all.take(8) =~= all);
    }
    if best_len > 1 {
        push_groups(out, &segs, 0, best_start);
        out.push(':');
        out.push(':');
        let ghost middle = out@;
        push_groups(out, &segs, best_start + best_len, 8);
        proof {
            assert(all.subrange(0, best_start as int) =~= all.take(best_start as int));
            assert(all.subrange(best_start + best_len, 8) =~= all.skip(best_start + best_len));
            assert(out@ =~= start + ipv6_text(a));
        }
    } else {
        push_groups(out, &segs, 0, 8);
        proof {
            assert(all.subrange(0, 8) =~= all);
        }
    }
}

/// The text of an IP address, as `IpAddr`'s `Display` writes it.
pub fn ip_text(ip: IpAddress) -> (text: String)
    ensures
        text@ == ip_text_spec(ip),
{
    let mut out: Vec<char> = Vec::new();
    match ip {
        IpAddress::V4(a) => push_ipv4(&mut out, a),
        IpAddress::V6(a) => push_ipv6(&mut out, a),
    }
    proof {
        assert(out@ =~= ip_text_spec(ip));
    }
    string_from_chars(&out)
}

/// The text of a socket address, as `SocketAddr`'s `Display` writes it.
pub fn socket_text(address: SocketAddress) -> (text: String)
    ensures
        text@ == socket_text_spec(address),
{
    let mut out: Vec<char> = Vec::new();
    match address.ip {
        IpAddress::V4(a) => {
            push_ipv4(&mut out, a);
            out.push(':');
        },
        IpAddress::V6(a) => {
            out.push('[');
            push_ipv6(&mut out, a);
            out.push(']');
            out.push(':');
        },
    }
    push_decimal(&mut out, address.port as u64);
    proof {
        assert(out@ =~= socket_text_spec(address));
    }
    string_from_chars(&out)
}

} // verus!
