//! The filter program that hands network system calls to the supervisor.
use crate::seccomp::notify::SeccompData;
use vstd::prelude::*;

verus! {

/// What a filter returns to have the supervisor asked.
pub const SECCOMP_RET_USER_NOTIF: u32 = 0x7FC0_0000;

/// What a filter returns to let a system call through.
pub const SECCOMP_RET_ALLOW: u32 = 0x7FFF_0000;

const BPF_LD: u16 = 0x00;

const BPF_W: u16 = 0x00;

const BPF_ABS: u16 = 0x20;

const BPF_JMP: u16 = 0x05;

const BPF_JEQ: u16 = 0x10;

const BPF_JGE: u16 = 0x30;

const BPF_K: u16 = 0x00;

const BPF_RET: u16 = 0x06;

/// The audit architecture of x86-64. Calls through the x32 ABI have it too.
pub const AUDIT_ARCH_X86_64: u32 = 0xC000_003E;

/// The bit that the numbers of calls through the x32 ABI carry on x86-64, and no others do.
pub const X32_SYSCALL_BIT: u32 = 0x4000_0000;

/// One instruction of a classic BPF program.
#[derive(Debug, Clone, Copy, PartialEq, Eq, Structural)]
pub struct SockFilter {
    pub code: u16,
    pub jt: u8,
    pub jf: u8,
    pub k: u32,
}

/// The numbers of the system calls that the supervisor mediates.
#[derive(Debug, Clone, Copy, PartialEq, Eq, Structural)]
pub struct MediatedCalls {
    pub connect: u32,
    pub sendto: u32,
    pub sendmsg: u32,
    pub recvfrom: u32,
    pub recvmsg: u32,
    pub bind: u32,
}

impl MediatedCalls {
    /// `nr` is the number of a mediated call.
    pub open spec fn has(self, nr: u32) -> bool {
        nr == self.connect || nr == self.sendto || nr == self.sendmsg || nr == self.recvfrom || nr
            == self.recvmsg || nr == self.bind
    }

    /// Reads `libc::SYS_connect`, `SYS_sendto`, `SYS_sendmsg`, `SYS_recvfrom`,
    /// `SYS_recvmsg` and `SYS_bind`. The numbers differ between machines, so nothing is
    /// claimed of them.
    #[verifier::external_body]
    pub(crate) fn native() -> MediatedCalls {
        MediatedCalls {
            connect: libc::SYS_connect as u32,
            sendto: libc::SYS_sendto as u32,
            sendmsg: libc::SYS_sendmsg as u32,
            recvfrom: libc::SYS_recvfrom as u32,
            recvmsg: libc::SYS_recvmsg as u32,
            bind: libc::SYS_bind as u32,
        }
    }
}

/// A signed word as the filter sees it.
pub open spec fn as_word(n: i32) -> u32 {
    if n >= 0 {
        n as u32
    } else {
        (n + 0x1_0000_0000) as u32
    }
}

/// The word at the byte offset `offset` of what a filter is shown of a system call,
/// for the offsets that filters here load from.
pub open spec fn word_at(data: SeccompData, offset: u32) -> Option<u32> {
    if offset == 0 {
        Some(as_word(data.nr))
    } else if offset == 4 {
        Some(data.arch)
    } else {
        None
    }
}

/// What running `program` from instruction `pc` on, with `acc` in the accumulator,
/// returns for a system call, by the kernel's rules for the four instructions that
/// load a word, jump on equality, jump on a bound, and return a constant. `None` where the program runs
/// into something else.
pub open spec fn run_filter(
    program: Seq<SockFilter>,
    data: SeccompData,
    pc: int,
    acc: u32,
) -> Option<u32>
    decreases (if pc < program.len() { program.len() - pc } else { 0 }),
{
    if pc < 0 || pc >= program.len() {
        None
    } else {
        let i = program[pc];
        if i.code == 0x20 {
            match word_at(data, i.k) {
                Some(word) => run_filter(program, data, pc + 1, word),
                None => None,
            }
        } else if i.code == 0x15 {
            run_filter(program, data, pc + 1 + (if acc == i.k { i.jt } else { i.jf }) as int, acc)
        } else if i.code == 0x35 {
            run_filter(program, data, pc + 1 + (if acc >= i.k { i.jt } else { i.jf }) as int, acc)
        } else if i.code == 0x06 {
            Some(i.k)
        } else {
            None
        }
    }
}

/// The number `nr` is not one of the native ABI, though the architecture is the native one:
/// on x86-64 it belongs to the x32 ABI or to no call at all.
pub open spec fn is_compat(native_arch: u32, nr: u32) -> bool {
    native_arch == AUDIT_ARCH_X86_64 && nr >= X32_SYSCALL_BIT
}

/// What the filter returns for a system call: calls of another architecture or another ABI
/// and mediated calls go to the supervisor, all others go through.
pub open spec fn filter_verdict(native_arch: u32, calls: MediatedCalls, data: SeccompData) -> u32 {
    if data.arch != native_arch || is_compat(native_arch, as_word(data.nr)) || calls.has(
        as_word(data.nr),
    ) {
        SECCOMP_RET_USER_NOTIF
    } else {
        SECCOMP_RET_ALLOW
    }
}

/// Running `program` gives every system call the verdict of the filter.
pub open spec fn decides(program: Seq<SockFilter>, native_arch: u32, calls: MediatedCalls) -> bool {
    forall|data: SeccompData| #[trigger]
        run_filter(program, data, 0, 0) == Some(filter_verdict(native_arch, calls, data))
}

fn load(offset: u32) -> (r: SockFilter)
    ensures
        r == (SockFilter { code: 0x20, jt: 0, jf: 0, k: offset }),
{
    assert(BPF_LD | BPF_W | BPF_ABS == 0x20u16) by (bit_vector);
    SockFilter { code: BPF_LD | BPF_W | BPF_ABS, jt: 0, jf: 0, k: offset }
}

fn jump_if_equal(k: u32, jt: u8, jf: u8) -> (r: SockFilter)
    ensures
        r == (SockFilter { code: 0x15, jt, jf, k }),
{
    assert(BPF_JMP | BPF_JEQ | BPF_K == 0x15u16) by (bit_vector);
    SockFilter { code: BPF_JMP | BPF_JEQ | BPF_K, jt, jf, k }
}

fn jump_if_at_least(k: u32, jt: u8, jf: u8) -> (r: SockFilter)
    ensures
        r == (SockFilter { code: 0x35, jt, jf, k }),
{
    assert(BPF_JMP | BPF_JGE | BPF_K == 0x35u16) by (bit_vector);
    SockFilter { code: BPF_JMP | BPF_JGE | BPF_K, jt, jf, k }
}

fn give(verdict: u32) -> (r: SockFilter)
    ensures
        r == (SockFilter { code: 0x06, jt: 0, jf: 0, k: verdict }),
{
    assert(BPF_RET | BPF_K == 0x06u16) by (bit_vector);
    SockFilter { code: BPF_RET | BPF_K, jt: 0, jf: 0, k: verdict }
}

/// How many instructions the filter program has: on x86-64 there is one for the x32 ABI.
pub open spec fn filter_len(native_arch: u32) -> nat {
    if native_arch == AUDIT_ARCH_X86_64 {
        12
    } else {
        11
    }
}

/// The filter program for a machine of the architecture `native_arch` on which the
/// mediated calls have the numbers `calls`.
pub fn connect_notify_filter(native_arch: u32, calls: MediatedCalls) -> (r: Vec<SockFilter>)
    ensures
        r@.len() == filter_len(native_arch),
        decides(r@, native_arch, calls),
{
    let x86_64 = native_arch == AUDIT_ARCH_X86_64;
    let mut r: Vec<SockFilter> = Vec::new();
    // Another architecture goes to the supervisor, which the last instruction asks for.
    r.push(load(4));
    r.push(jump_if_equal(native_arch, 0, if x86_64 { 9 } else { 8 }));
    r.push(load(0));
    // So does the x32 ABI,
    if x86_64 {
        r.push(jump_if_at_least(X32_SYSCALL_BIT, 7, 0));
    }
    // and so does each mediated call.
    r.push(jump_if_equal(calls.connect, 6, 0));
    r.push(jump_if_equal(calls.sendto, 5, 0));
    r.push(jump_if_equal(calls.sendmsg, 4, 0));
    r.push(jump_if_equal(calls.recvfrom, 3, 0));
    r.push(jump_if_equal(calls.recvmsg, 2, 0));
    r.push(jump_if_equal(calls.bind, 1, 0));
    r.push(give(SECCOMP_RET_ALLOW));
    r.push(give(SECCOMP_RET_USER_NOTIF));
    proof {
        let p = r@;
        let first: int = if x86_64 { 4 } else { 3 };
        assert forall|data: SeccompData| #[trigger]
            run_filter(p, data, 0, 0) == Some(filter_verdict(native_arch, calls, data)) by {
            let nr = as_word(data.nr);
            assert(run_filter(p, data, first + 7, nr) == Some(SECCOMP_RET_USER_NOTIF));
            assert(run_filter(p, data, first + 7, data.arch) == Some(SECCOMP_RET_USER_NOTIF));
            assert(run_filter(p, data, first + 6, nr) == Some(SECCOMP_RET_ALLOW));
            lemma_jump(p, data, first + 5, nr);
            lemma_jump(p, data, first + 4, nr);
            lemma_jump(p, data, first + 3, nr);
            lemma_jump(p, data, first + 2, nr);
            lemma_jump(p, data, first + 1, nr);
            lemma_jump(p, data, first, nr);
            if x86_64 {
                assert(run_filter(p, data, 3, nr) == run_filter(
                    p,
                    data,
                    if nr >= X32_SYSCALL_BIT {
                        11
                    } else {
                        4
                    },
                    nr,
                ));
            }
            assert(run_filter(p, data, 2, data.arch) == run_filter(p, data, 3, nr));
            lemma_jump(p, data, 1, data.arch);
            assert(run_filter(p, data, 0, 0) == run_filter(p, data, 1, data.arch));
        }
    }
    r
}

/// A call through the x32 ABI on x86-64 goes to the supervisor, whatever its number: no call
/// gets past the filter by another ABI than the native one.
pub proof fn no_call_passes_by_another_abi(
    program: Seq<SockFilter>,
    native_arch: u32,
    calls: MediatedCalls,
    data: SeccompData,
)
    requires
        decides(program, native_arch, calls),
        data.arch != native_arch || is_compat(native_arch, as_word(data.nr)),
    ensures
        run_filter(program, data, 0, 0) == Some(SECCOMP_RET_USER_NOTIF),
{
}

proof fn lemma_jump(program: Seq<SockFilter>, data: SeccompData, pc: int, acc: u32)
    requires
        0 <= pc < program.len(),
        program[pc].code == 0x15,
    ensures
        acc == program[pc].k ==> run_filter(program, data, pc, acc) == run_filter(
            program,
            data,
            pc + 1 + program[pc].jt,
            acc,
        ),
        acc != program[pc].k ==> run_filter(program, data, pc, acc) == run_filter(
            program,
            data,
            pc + 1 + program[pc].jf,
            acc,
        ),
{
}

/// The filter program for this machine, whose audit architecture is `native_arch`.
pub fn native_connect_notify_filter(native_arch: u32) -> (r: Vec<SockFilter>)
    ensures
        r@.len() == filter_len(native_arch),
        exists|calls: MediatedCalls| #[trigger] decides(r@, native_arch, calls),
{
    connect_notify_filter(native_arch, MediatedCalls::native())
}

/// On a machine of the native architecture, the calls that connect, bind, send and receive go
/// to the supervisor, and every other call of the native ABI goes through.
pub proof fn network_calls_go_to_the_supervisor(
    program: Seq<SockFilter>,
    native_arch: u32,
    calls: MediatedCalls,
    data: SeccompData,
    nr: u32,
)
    requires
        decides(program, native_arch, calls),
        data.arch == native_arch,
        0 <= data.nr < 0x4000_0000,
        nr == data.nr,
    ensures
        nr == calls.connect || nr == calls.bind || nr == calls.sendto || nr == calls.sendmsg || nr
            == calls.recvfrom || nr == calls.recvmsg ==> run_filter(program, data, 0, 0) == Some(
            0x7FC0_0000u32,
        ),
        nr != calls.connect && nr != calls.bind && nr != calls.sendto && nr != calls.sendmsg && nr
            != calls.recvfrom && nr != calls.recvmsg ==> run_filter(program, data, 0, 0) == Some(
            0x7FFF_0000u32,
        ),
{
}

/// A call of another architecture goes to the supervisor, whatever its number.
pub proof fn foreign_calls_go_to_the_supervisor(
    program: Seq<SockFilter>,
    native_arch: u32,
    calls: MediatedCalls,
    data: SeccompData,
)
    requires
        decides(program, native_arch, calls),
        data.arch != native_arch || (native_arch == 0xC000_003E && data.nr >= 0x4000_0000),
    ensures
        run_filter(program, data, 0, 0) == Some(0x7FC0_0000u32),
{
}

} // verus!
