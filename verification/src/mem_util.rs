//! Advice to the operating system on how memory is going to be accessed.
use vstd::prelude::*;
use vstd::string::*;

use crate::text::{append_decimal, decimal};

verus! {

/// A failure of advice on memory access, with the code that was returned.
#[derive(Clone, Copy, Debug, PartialEq, Eq, Structural)]
pub struct MadviseError {
    pub ecode: i32,
}

/// The decimal digits of a signed number.
pub open spec fn signed_decimal(v: int) -> Seq<char> {
    if v < 0 {
        "-"@ + decimal((-v) as nat)
    } else {
        decimal(v as nat)
    }
}

impl MadviseError {
    /// A description for the user.
    pub fn message(&self) -> (s: String)
        ensures
            s@ == "libc::posix_madvise error return code "@ + signed_decimal(self.ecode as int),
    {
        let mut s: String = "libc::posix_madvise error return code ".to_owned();
        let code: i64 = self.ecode as i64;
        if code < 0 {
            s.append("-");
            append_decimal(&mut s, (-code) as u64);
        } else {
            append_decimal(&mut s, code as u64);
        }
        assert(s@ =~= "libc::posix_madvise error return code "@ + signed_decimal(self.ecode as int));
        s
    }
}

/// A pattern of memory access, in ascending order of priority in the presence
/// of concurrent interest in the same region.
#[derive(Clone, Copy, Debug, PartialEq, Eq, PartialOrd, Ord, Structural)]
pub enum MemoryAccess {
    /// No access is expected in the near future.
    NoNeed,
    /// No special treatment.
    Normal,
    /// Access is expected in the near future.
    Need,
    /// Access in random order.
    Random,
    /// Access in sequence.
    Sequential,
}

impl MemoryAccess {
    /// The priority.
    pub open spec fn spec_priority(&self) -> u16 {
        match *self {
            MemoryAccess::NoNeed => 0,
            MemoryAccess::Normal => 10,
            MemoryAccess::Need => 20,
            MemoryAccess::Random => 30,
            MemoryAccess::Sequential => 40,
        }
    }

    /// The priority, which is higher for the patterns that come later.
    pub fn priority(&self) -> (r: u16)
        ensures
            r == self.spec_priority(),
    {
        match self {
            MemoryAccess::NoNeed => 0,
            MemoryAccess::Normal => 10,
            MemoryAccess::Need => 20,
            MemoryAccess::Random => 30,
            MemoryAccess::Sequential => 40,
        }
    }
}

/// The codes by which a system call takes advice.
#[derive(Clone, Copy, Debug)]
pub struct AdviceCodes {
    pub no_need: u32,
    pub normal: u32,
    pub need: u32,
    pub random: u32,
    pub sequential: u32,
}

impl AdviceCodes {
    /// The code of a pattern.
    pub open spec fn spec_code(&self, access: MemoryAccess) -> u32 {
        match access {
            MemoryAccess::NoNeed => self.no_need,
            MemoryAccess::Normal => self.normal,
            MemoryAccess::Need => self.need,
            MemoryAccess::Random => self.random,
            MemoryAccess::Sequential => self.sequential,
        }
    }

    /// The code of a pattern.
    fn code(&self, access: MemoryAccess) -> (r: u32)
        ensures
            r == self.spec_code(access),
    {
        match access {
            MemoryAccess::NoNeed => self.no_need,
            MemoryAccess::Normal => self.normal,
            MemoryAccess::Need => self.need,
            MemoryAccess::Random => self.random,
            MemoryAccess::Sequential => self.sequential,
        }
    }
}

/// The codes of some patterns, combined bit by bit.
pub open spec fn combined(advice: Seq<MemoryAccess>, codes: AdviceCodes) -> u32
    decreases advice.len(),
{
    if advice.len() == 0 {
        0
    } else {
        combined(advice.drop_last(), codes) | codes.spec_code(advice.last())
    }
}

/// The flags by which to advise of a region of memory, for a system call.
pub fn advise(advice: &[MemoryAccess], codes: &AdviceCodes) -> (flags: u32)
    ensures
        flags == combined(advice@, *codes),
{
    let mut flags: u32 = 0;
    let mut i: usize = 0;
    while i < advice.len()
        invariant
            i <= advice@.len(),
            flags == combined(advice@.take(i as int), *codes),
        decreases advice@.len() - i,
    {
        assert(advice@.take(i + 1).drop_last() =~= advice@.take(i as int));
        flags = flags | codes.code(advice[i]);
        i += 1;
    }
    assert(advice@.take(i as int) =~= advice@);
    flags
}

/// The outcome of advice, by the code that the system call returned.
pub fn advised(res: i32) -> (r: Result<(), MadviseError>)
    ensures
        r == (if res == 0 {
            Ok(())
        } else {
            Err(MadviseError { ecode: res })
        }),
{
    if res == 0 {
        Ok(())
    } else {
        Err(MadviseError { ecode: res })
    }
}

/// The codes of two lists of patterns, one after the other.
proof fn lemma_combined_add(a: Seq<MemoryAccess>, b: Seq<MemoryAccess>, codes: AdviceCodes)
    ensures
        combined(a + b, codes) == combined(a, codes) | combined(b, codes),
    decreases b.len(),
{
    let x = combined(a, codes);
    if b.len() == 0 {
        assert(a + b =~= a);
        assert(x | 0u32 == x) by (bit_vector);
    } else {
        lemma_combined_add(a, b.drop_last(), codes);
        assert((a + b).drop_last() =~= a + b.drop_last());
        let y = combined(b.drop_last(), codes);
        let z = codes.spec_code(b.last());
        assert((x | y) | z == x | (y | z)) by (bit_vector);
    }
}

/// The order of advice makes no difference.
pub proof fn law_advice_in_any_order(a: Seq<MemoryAccess>, b: Seq<MemoryAccess>, codes: AdviceCodes)
    ensures
        combined(a + b, codes) == combined(b + a, codes),
{
    lemma_combined_add(a, b, codes);
    lemma_combined_add(b, a, codes);
    let x = combined(a, codes);
    let y = combined(b, codes);
    assert(x | y == y | x) by (bit_vector);
}

/// The priorities of the patterns grow in their order, by tens.
pub proof fn law_priorities(none: u16, normal: u16, need: u16, random: u16, sequential: u16)
    requires
        call_ensures(MemoryAccess::priority, (&MemoryAccess::NoNeed,), none),
        call_ensures(MemoryAccess::priority, (&MemoryAccess::Normal,), normal),
        call_ensures(MemoryAccess::priority, (&MemoryAccess::Need,), need),
        call_ensures(MemoryAccess::priority, (&MemoryAccess::Random,), random),
        call_ensures(MemoryAccess::priority, (&MemoryAccess::Sequential,), sequential),
    ensures
        none == 0,
        normal == none + 10,
        need == normal + 10,
        random == need + 10,
        sequential == random + 10,
{
}

/// Advice of nothing has no flags, and one more pattern adds the flags of its code
/// to those of the patterns before.
pub proof fn law_advice(
    few: &[MemoryAccess],
    more: &[MemoryAccess],
    access: MemoryAccess,
    codes: &AdviceCodes,
    flags: u32,
    all: u32,
)
    requires
        more@ == few@.push(access),
        call_ensures(advise, (few, codes), flags),
        call_ensures(advise, (more, codes), all),
    ensures
        few@.len() == 0 ==> flags == 0,
        access is NoNeed ==> all == flags | codes.no_need,
        access is Normal ==> all == flags | codes.normal,
        access is Need ==> all == flags | codes.need,
        access is Random ==> all == flags | codes.random,
        access is Sequential ==> all == flags | codes.sequential,
{
    assert(more@.drop_last() =~= few@);
}

/// Advice is taken exactly if the system call returns zero, and fails with the
/// code that it returns, which is given in the description.
pub proof fn law_advice_outcome(res: i32, r: Result<(), MadviseError>, e: MadviseError, s: String)
    requires
        call_ensures(advised, (res,), r),
        call_ensures(MadviseError::message, (&e,), s),
    ensures
        res == 0 <==> r is Ok,
        r is Err ==> r->Err_0.ecode == res,
        e.ecode >= 0 ==> s@ == "libc::posix_madvise error return code "@ + decimal(e.ecode as nat),
        e.ecode < 0 ==> s@ == "libc::posix_madvise error return code "@ + "-"@ + decimal((-e.ecode) as nat),
{
    assert("libc::posix_madvise error return code "@ + ("-"@ + decimal((-e.ecode) as nat))
        =~= "libc::posix_madvise error return code "@ + "-"@ + decimal((-e.ecode) as nat));
}

} // verus!
