//! The load-command walk that locates a build id in command-list formats.
//!
//! After the module header comes a chain of variable-size commands, each a
//! 4-byte type tag and a 4-byte total size (header included) followed by
//! its payload.  The walk steps by each command's declared size, stops
//! after the declared command count or at the end of the region, and never
//! reads past either bound; the identifier is the payload of the first
//! command with the reserved type tag.

use vstd::prelude::*;

use crate::region::{read_u32, spec_le32};
use vstd::slice::slice_subrange;

verus! {

broadcast use vstd::slice::group_slice_axioms;

/// Type tag of the command that carries the module's identifier.
pub const LC_UUID: u32 = 0x1b;

/// Why the walk stopped before the declared command count was reached.
///
/// A command region handed over by a loader is expected to be consistent;
/// either error marks foreign data as corrupt, stops the walk, and is
/// reported once.
#[derive(Clone, Copy, Debug, PartialEq, Eq, Structural)]
pub enum CommandError {
    /// Fewer bytes remain than the command's header or declared size needs.
    Truncated { have: usize, need: usize },
    /// The declared size is below the 8-byte command header, so the walk
    /// could not advance.
    BadSize { size: u32 },
}

/// Split a region into its leading command: the type tag, the payload, and
/// the advance distance (the command's declared total size).
pub open spec fn spec_parse_command(r: Seq<u8>) -> Result<(u32, Seq<u8>, int), CommandError> {
    if r.len() < 8 {
        Err(CommandError::Truncated { have: r.len() as usize, need: 8 })
    } else {
        let cmd = spec_le32(r.subrange(0, 4));
        let size = spec_le32(r.subrange(4, 8));
        if size < 8 {
            Err(CommandError::BadSize { size })
        } else if size > r.len() {
            Err(CommandError::Truncated { have: r.len() as usize, need: size as usize })
        } else {
            Ok((cmd, r.subrange(8, size as int), size as int))
        }
    }
}

/// Walk at most `n` commands and return the payload of the first
/// identifier command; nothing if the count or the region ends first, or a
/// command is malformed.
pub open spec fn spec_walk_build_id(r: Seq<u8>, n: nat) -> Option<Seq<u8>>
    decreases n,
{
    if n == 0 {
        None
    } else {
        match spec_parse_command(r) {
            Err(_) => None,
            Ok((cmd, payload, adv)) => {
                if cmd == LC_UUID {
                    Some(payload)
                } else {
                    spec_walk_build_id(r.subrange(adv, r.len() as int), (n - 1) as nat)
                }
            },
        }
    }
}

/// How many commands a walk bounded by `n` yields before it stops.
pub open spec fn spec_walk_len(r: Seq<u8>, n: nat) -> nat
    decreases n,
{
    if n == 0 {
        0
    } else {
        match spec_parse_command(r) {
            Err(_) => 0,
            Ok((cmd, payload, adv)) => 1 + spec_walk_len(
                r.subrange(adv, r.len() as int),
                (n - 1) as nat,
            ),
        }
    }
}

/// The declared sizes of `n` commands consume the region exactly.
pub open spec fn spec_exact_commands(r: Seq<u8>, n: nat) -> bool
    decreases n,
{
    if n == 0 {
        r.len() == 0
    } else {
        match spec_parse_command(r) {
            Err(_) => false,
            Ok((cmd, payload, adv)) => spec_exact_commands(
                r.subrange(adv, r.len() as int),
                (n - 1) as nat,
            ),
        }
    }
}

/// A region exactly consumed by `n` commands yields all `n` of them: the
/// walk neither stops early nor runs past the declared count.
pub proof fn lemma_exact_walk_yields_all(r: Seq<u8>, n: nat)
    requires
        spec_exact_commands(r, n),
    ensures
        spec_walk_len(r, n) == n,
    decreases n,
{
    if n != 0 {
        match spec_parse_command(r) {
            Err(_) => {},
            Ok((cmd, payload, adv)) => {
                lemma_exact_walk_yields_all(r.subrange(adv, r.len() as int), (n - 1) as nat);
            },
        }
    }
}

/// One command: its type tag and its payload bytes.
#[derive(Clone, Copy, Debug, PartialEq, Eq)]
pub struct Command<'a> {
    pub cmd: u32,
    pub data: &'a [u8],
}

/// A cursor over a command region, bounded by the declared command count
/// and by the end of the region.
pub struct CommandIter<'a> {
    region: &'a [u8],
    off: usize,
    remaining: u32,
}

impl<'a> CommandIter<'a> {
    /// The unconsumed tail of the command region.
    pub closed spec fn spec_rest(self) -> Seq<u8> {
        self.region@.subrange(self.off as int, self.region@.len() as int)
    }

    /// How many commands may still be yielded.
    pub closed spec fn spec_remaining(self) -> u32 {
        self.remaining
    }

    /// The cursor sits inside its region.
    pub closed spec fn wf(self) -> bool {
        self.off <= self.region@.len()
    }

    /// A cursor over `region`, which declares `ncmds` commands.
    pub fn new(region: &'a [u8], ncmds: u32) -> (it: CommandIter<'a>)
        ensures
            it.wf(),
            it.spec_rest() == region@,
            it.spec_remaining() == ncmds,
    {
        proof {
            assert(region@.subrange(0, region@.len() as int) =~= region@);
        }
        CommandIter { region, off: 0, remaining: ncmds }
    }

    /// Step to the next command.
    ///
    /// Yields nothing once the declared count is consumed; yields the
    /// error and stops if the leading command is malformed or truncated.
    pub fn next(&mut self) -> (r: Option<Result<Command<'a>, CommandError>>)
        requires
            old(self).wf(),
        ensures
            final(self).wf(),
            old(self).spec_remaining() == 0 ==> r is None && final(self).spec_remaining() == 0,
            old(self).spec_remaining() != 0 ==> match spec_parse_command(old(self).spec_rest()) {
                Err(e) => r == Some(Err::<Command<'a>, CommandError>(e))
                    && final(self).spec_remaining() == 0,
                Ok((cmd, payload, adv)) => {
                    &&& r matches Some(Ok(c)) && c.cmd == cmd && c.data@ == payload
                    &&& final(self).spec_rest() == old(self).spec_rest().subrange(
                        adv,
                        old(self).spec_rest().len() as int,
                    )
                    &&& final(self).spec_remaining() == old(self).spec_remaining() - 1
                },
            },
    {
        if self.remaining == 0 {
            return None;
        }
        let ghost rest = self.spec_rest();
        let rest_len = self.region.len() - self.off;
        if rest_len < 8 {
            self.remaining = 0;
            return Some(Err(CommandError::Truncated { have: rest_len, need: 8 }));
        }
        proof {
            assert(self.region@.subrange(self.off as int, self.off as int + 4) =~= rest.subrange(
                0,
                4,
            ));
            assert(self.region@.subrange(self.off as int + 4, self.off as int + 8) =~= rest
                .subrange(4, 8));
        }
        let cmd = read_u32(self.region, self.off);
        let size = read_u32(self.region, self.off + 4);
        if size < 8 {
            self.remaining = 0;
            return Some(Err(CommandError::BadSize { size }));
        }
        let size = size as usize;
        if size > rest_len {
            self.remaining = 0;
            return Some(Err(CommandError::Truncated { have: rest_len, need: size }));
        }
        let data = slice_subrange(self.region, self.off + 8, self.off + size);
        proof {
            assert(data@ =~= rest.subrange(8, size as int));
            assert(self.region@.subrange(self.off as int + size as int, self.region@.len() as int)
                =~= rest.subrange(size as int, rest.len() as int));
        }
        let c = Command { cmd, data };
        self.off = self.off + size;
        self.remaining = self.remaining - 1;
        Some(Ok(c))
    }
}

/// The identifier carried by the module's command region, if any.
///
/// `region` holds the bytes immediately after the module header;
/// `ncmds` is the header's declared command count.  The first identifier
/// command wins; a malformed command or the end of either bound is the
/// no-identifier outcome.
pub fn build_id<'a>(region: &'a [u8], ncmds: u32) -> (r: Option<&'a [u8]>)
    ensures
        match r {
            Some(d) => spec_walk_build_id(region@, ncmds as nat) == Some(d@),
            None => spec_walk_build_id(region@, ncmds as nat) is None,
        },
{
    let mut it = CommandIter::new(region, ncmds);
    loop
        invariant
            it.wf(),
            spec_walk_build_id(it.spec_rest(), it.spec_remaining() as nat) == spec_walk_build_id(
                region@,
                ncmds as nat,
            ),
        decreases it.spec_remaining(),
    {
        match it.next() {
            None => {
                return None;
            },
            Some(Err(_)) => {
                return None;
            },
            Some(Ok(c)) => {
                if c.cmd == LC_UUID {
                    return Some(c.data);
                }
            },
        }
    }
}

} // verus!
