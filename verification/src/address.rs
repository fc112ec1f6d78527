//! The address of a peer: a host and a port, as plain values.

use crate::text::{decimal, lower_hex, push_decimal, push_lower_hex};
use vstd::prelude::*;
use vstd::string::*;

verus! {

/// The address of a host.
#[derive(Debug, Clone, Copy, PartialEq, Eq, Hash)]
pub enum HostAddress {
    /// The four bytes of an IPv4 address, first byte first
    V4([u8; 4]),
    /// The eight groups of an IPv6 address, first group first
    V6([u16; 8]),
}

/// The address of a peer: where a datagram goes to or comes from.
#[derive(Debug, Clone, Copy, PartialEq, Eq, Hash)]
pub struct PeerAddress {
    /// The host
    pub host: HostAddress,
    /// The UDP port
    pub port: u16,
}

/// The groups of an IPv6 address from `from` up to, but without, `to`: each
/// in lower-case hexadecimal digits without leading zeros, with a colon
/// between two groups.
pub open spec fn groups_text(groups: Seq<u16>, from: int, to: int) -> Seq<char>
    decreases to - from,
{
    if from < 0 || to > groups.len() || from >= to {
        Seq::empty()
    } else if from + 1 == to {
        lower_hex(groups[from] as nat)
    } else {
        lower_hex(groups[from] as nat) + ":"@ + groups_text(groups, from + 1, to)
    }
}

/// The number of groups from `from` on that are zero, up to the first that
/// is not.
pub open spec fn zero_run(groups: Seq<u16>, from: int) -> nat
    decreases groups.len() - from,
{
    if from < 0 || from >= groups.len() || groups[from] != 0 {
        0
    } else {
        1 + zero_run(groups, from + 1)
    }
}

/// Where the longest run of zero groups at or after `from` starts, and its
/// length; of several runs of that length, the first.
pub open spec fn longest_zero_run(groups: Seq<u16>, from: int) -> (int, nat)
    decreases groups.len() - from,
{
    if from < 0 || from >= groups.len() {
        (from, 0)
    } else {
        let later = longest_zero_run(groups, from + 1);
        if zero_run(groups, from) > 0 && zero_run(groups, from) >= later.1 {
            (from, zero_run(groups, from))
        } else {
            later
        }
    }
}

/// The four bytes of an IPv4 address in decimal, with dots between them.
pub open spec fn v4_text(a: u8, b: u8, c: u8, d: u8) -> Seq<char> {
    decimal(a as nat) + "."@ + decimal(b as nat) + "."@ + decimal(c as nat) + "."@ + decimal(
        d as nat,
    )
}

/// Whether the groups are those of an IPv4 address that is mapped into
/// IPv6: five groups of zero and one of `ffff` come first.
pub open spec fn is_v4_mapped(groups: Seq<u16>) -> bool {
    &&& groups.len() == 8
    &&& groups[0] == 0
    &&& groups[1] == 0
    &&& groups[2] == 0
    &&& groups[3] == 0
    &&& groups[4] == 0
    &&& groups[5] == 0xffff
}

/// The text of an IPv6 address. A mapped IPv4 address is `::ffff:` and the
/// IPv4 address in dotted form. Any other address is its groups in
/// hexadecimal with colons between them, the longest run of two or more
/// zero groups, and of several the first, shortened to `::`.
pub open spec fn v6_text(groups: Seq<u16>) -> Seq<char> {
    if is_v4_mapped(groups) {
        "::ffff:"@ + v4_text(
            (groups[6] / 256) as u8,
            (groups[6] % 256) as u8,
            (groups[7] / 256) as u8,
            (groups[7] % 256) as u8,
        )
    } else {
        let (start, len) = longest_zero_run(groups, 0);
        if len > 1 {
            groups_text(groups, 0, start) + "::"@ + groups_text(
                groups,
                start + len,
                groups.len() as int,
            )
        } else {
            groups_text(groups, 0, groups.len() as int)
        }
    }
}

/// Appends the four bytes of an IPv4 address to `out`.
fn push_v4(out: &mut String, a: u8, b: u8, c: u8, d: u8)
    ensures
        final(out)@ == old(out)@ + v4_text(a, b, c, d),
{
    push_decimal(out, a as u64);
    out.append(".");
    push_decimal(out, b as u64);
    out.append(".");
    push_decimal(out, c as u64);
    out.append(".");
    push_decimal(out, d as u64);
    assert(final(out)@ =~= old(out)@ + v4_text(a, b, c, d));
}

/// Appends the groups from `from` up to `to` to `out`.
fn push_groups(out: &mut String, groups: &[u16; 8], from: usize, to: usize)
    requires
        from <= to <= 8,
    ensures
        final(out)@ == old(out)@ + groups_text(groups@, from as int, to as int),
{
    let mut i: usize = to;
    let mut tail = String::new();
    assert(tail@ =~= groups_text(groups@, to as int, to as int));
    // The groups are written last to first, each in front of what stands
    // already.
    while i > from
        invariant
            from <= i <= to <= 8,
            tail@ == groups_text(groups@, i as int, to as int),
        decreases i,
    {
        i = i - 1;
        let mut head = String::new();
        push_lower_hex(&mut head, groups[i] as u64);
        if i + 1 < to {
            head.append(":");
            head.append(tail.as_str());
        }
        assert(head@ =~= groups_text(groups@, i as int, to as int));
        tail = head;
    }
    out.append(tail.as_str());
}

/// Where the longest run of zero groups starts, and its length.
fn find_longest_zero_run(groups: &[u16; 8]) -> (r: (usize, usize))
    ensures
        (r.0 as int, r.1 as nat) == longest_zero_run(groups@, 0),
        r.0 + r.1 <= 8,
{
    let mut i: usize = 8;
    let mut run: usize = 0;
    let mut start: usize = 8;
    let mut len: usize = 0;
    while i > 0
        invariant
            i <= 8,
            run as nat == zero_run(groups@, i as int),
            (start as int, len as nat) == longest_zero_run(groups@, i as int),
            run <= 8 - i,
            i <= start,
            start + len <= 8,
        decreases i,
    {
        i = i - 1;
        if groups[i] == 0 {
            run = run + 1;
        } else {
            run = 0;
        }
        if run > 0 && run >= len {
            start = i;
            len = run;
        }
    }
    (start, len)
}

/// Whether the groups are those of a mapped IPv4 address.
fn check_v4_mapped(groups: &[u16; 8]) -> (b: bool)
    ensures
        b == is_v4_mapped(groups@),
{
    groups[0] == 0 && groups[1] == 0 && groups[2] == 0 && groups[3] == 0 && groups[4] == 0
        && groups[5] == 0xffff
}

/// Appends the text of an IPv6 address to `out`.
fn push_v6(out: &mut String, groups: &[u16; 8])
    ensures
        final(out)@ == old(out)@ + v6_text(groups@),
{
    if check_v4_mapped(groups) {
        out.append("::ffff:");
        push_v4(
            out,
            (groups[6] / 256) as u8,
            (groups[6] % 256) as u8,
            (groups[7] / 256) as u8,
            (groups[7] % 256) as u8,
        );
    } else {
        let (start, len) = find_longest_zero_run(groups);
        if len > 1 {
            push_groups(out, groups, 0, start);
            out.append("::");
            push_groups(out, groups, start + len, 8);
        } else {
            push_groups(out, groups, 0, 8);
        }
    }
    assert(final(out)@ =~= old(out)@ + v6_text(groups@));
}

impl HostAddress {
    /// The text of the address: the dotted form of an IPv4 address, the
    /// shortened form of an IPv6 address.
    pub open spec fn text(self) -> Seq<char> {
        match self {
            HostAddress::V4(b) => v4_text(b@[0], b@[1], b@[2], b@[3]),
            HostAddress::V6(g) => v6_text(g@),
        }
    }

    /// Appends the text of the address to `out`.
    pub fn render_into(&self, out: &mut String)
        ensures
            final(out)@ == old(out)@ + self.text(),
    {
        match self {
            HostAddress::V4(b) => {
                push_v4(out, b[0], b[1], b[2], b[3]);
            },
            HostAddress::V6(g) => {
                push_v6(out, g);
            },
        }
    }
}

impl PeerAddress {
    /// The text of the address: host and port with a colon between them, the
    /// host of an IPv6 address in square brackets.
    pub open spec fn text(self) -> Seq<char> {
        match self.host {
            HostAddress::V4(_) => self.host.text() + ":"@ + decimal(self.port as nat),
            HostAddress::V6(_) => "["@ + self.host.text() + "]:"@ + decimal(self.port as nat),
        }
    }

    /// Appends the text of the address to `out`.
    pub fn render_into(&self, out: &mut String)
        ensures
            final(out)@ == old(out)@ + self.text(),
    {
        match self.host {
            HostAddress::V4(_) => {
                self.host.render_into(out);
                out.append(":");
                push_decimal(out, self.port as u64);
            },
            HostAddress::V6(_) => {
                out.append("[");
                self.host.render_into(out);
                out.append("]:");
                push_decimal(out, self.port as u64);
            },
        }
        assert(final(out)@ =~= old(out)@ + self.text());
    }

    /// The text of the address, such as `192.168.1.255:1434`.
    pub fn render(&self) -> (s: String)
        ensures
            s@ == self.text(),
    {
        let mut out = String::new();
        self.render_into(&mut out);
        assert(out@ =~= self.text());
        out
    }
}

} // verus!
