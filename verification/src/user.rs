//! The program that the example tasks run: it prints one numbered line after
//! the other and holds the semaphore while it prints a line.
//!
//! The program is given as the system calls that it makes, one after the
//! other.

use crate::io::Op;
use crate::isr::state::State;
use crate::syscalls::{served, SYS_DOWN, SYS_PUTC, SYS_UP};
use crate::Kernel;
use vstd::prelude::*;
use vstd::string::StringSliceAdditionalSpecFns;

verus! {

/// A system call: its number and its argument.
#[derive(Copy, Clone, Debug, PartialEq, Eq, Structural)]
pub struct Call {
    pub no: usize,
    pub arg: usize,
}

/// The call that takes the semaphore
pub fn sem_down() -> (call: Call)
    ensures
        call == (Call { no: SYS_DOWN, arg: 0 }),
{
    Call { no: SYS_DOWN, arg: 0 }
}

/// The call that raises the semaphore
pub fn sem_up() -> (call: Call)
    ensures
        call == (Call { no: SYS_UP, arg: 0 }),
{
    Call { no: SYS_UP, arg: 0 }
}

/// The calls that put out `bytes`: one for each byte.
pub open spec fn putc_calls(bytes: Seq<u8>) -> Seq<Call> {
    Seq::new(bytes.len(), |i: int| Call { no: SYS_PUTC, arg: bytes[i] as usize })
}

/// Puts the calls that put out `bytes` behind `calls`.
fn push_bytes(calls: &mut Vec<Call>, bytes: &[u8])
    ensures
        final(calls)@ == old(calls)@ + putc_calls(bytes@),
{
    let mut i: usize = 0;
    while i < bytes.len()
        invariant
            i <= bytes.len(),
            calls@ == old(calls)@ + putc_calls(bytes@.take(i as int)),
        decreases bytes.len() - i,
    {
        calls.push(Call { no: SYS_PUTC, arg: bytes[i] as usize });
        i = i + 1;
    }
    assert(bytes@.take(i as int) == bytes@);
}

/// Writes text by system calls
pub struct Printer {}

impl Printer {
    /// Returns the calls that put out the bytes of `s`
    pub fn write_str(&mut self, s: &str) -> (calls: Vec<Call>)
        ensures
            calls@ == putc_calls(s.spec_bytes()),
    {
        let mut calls: Vec<Call> = Vec::new();
        push_bytes(&mut calls, s.as_bytes());
        calls
    }
}

/// The character `0`.
pub const ZERO: u8 = 0x30;

/// The decimal digits of `n` as characters, the highest first.
pub open spec fn digits(n: nat) -> Seq<u8>
    decreases n,
{
    if n < 10 {
        seq![(ZERO + n) as u8]
    } else {
        digits(n / 10).push((ZERO + n % 10) as u8)
    }
}

/// Returns the decimal digits of `n` as characters, the highest first
pub fn decimal(n: u32) -> (s: Vec<u8>)
    ensures
        s@ == digits(n as nat),
    decreases n,
{
    if n < 10 {
        let mut s: Vec<u8> = Vec::new();
        s.push(ZERO + n as u8);
        s
    } else {
        let mut s = decimal(n / 10);
        s.push(ZERO + (n % 10) as u8);
        s
    }
}

/// The characters `Hello World `.
pub open spec fn greeting() -> Seq<u8> {
    seq![0x48u8, 0x65, 0x6c, 0x6c, 0x6f, 0x20, 0x57, 0x6f, 0x72, 0x6c, 0x64, 0x20]
}

/// The line with the number `no`: `Hello World `, the number, an
/// exclamation mark and a newline.
pub open spec fn line(no: u32) -> Seq<u8> {
    greeting() + digits(no as nat) + seq![0x21u8, 0x0a]
}

/// The calls of the round in which line `no` is printed: the semaphore is
/// taken, the line is put out, and the semaphore is raised.
pub open spec fn round(no: u32) -> Seq<Call> {
    seq![Call { no: SYS_DOWN, arg: 0 }] + putc_calls(line(no)) + seq![Call { no: SYS_UP, arg: 0 }]
}

/// Returns the calls of the round in which line `no` is printed
pub fn round_calls(no: u32) -> (calls: Vec<Call>)
    ensures
        calls@ == round(no),
{
    let mut calls: Vec<Call> = Vec::new();
    calls.push(sem_down());
    let hello: [u8; 12] = [0x48, 0x65, 0x6c, 0x6c, 0x6f, 0x20, 0x57, 0x6f, 0x72, 0x6c, 0x64, 0x20];
    let number = decimal(no);
    let end: [u8; 2] = [0x21, 0x0a];
    push_bytes(&mut calls, hello.as_slice());
    push_bytes(&mut calls, number.as_slice());
    push_bytes(&mut calls, end.as_slice());
    calls.push(sem_up());
    proof {
        assert(hello@ == greeting());
        assert(end@ == seq![0x21u8, 0x0a]);
        assert(putc_calls(line(no)) == putc_calls(hello@) + putc_calls(number@) + putc_calls(
            end@,
        ));
    }
    calls
}

/// Where the program stands: in the round of line `no`, before call `pos`
/// of that round.
pub struct Hello {
    pub no: u32,
    pub pos: usize,
}

impl Hello {
    /// The program stands inside its round.
    pub open spec fn wf(&self) -> bool {
        self.pos < round(self.no).len()
    }

    /// The call that the program makes next.
    pub open spec fn call(&self) -> Call {
        round(self.no)[self.pos as int]
    }

    /// Where the program stands once its next call is over: before the next
    /// call of the round, or before the first call of the next round.
    pub open spec fn behind_call(&self) -> Hello {
        if self.pos + 1 < round(self.no).len() {
            Hello { no: self.no, pos: (self.pos + 1) as usize }
        } else {
            Hello { no: (self.no + 1) as u32, pos: 0 }
        }
    }

    /// Whether the program holds the semaphore: it has taken it in its round
    /// and has not raised it yet.
    pub open spec fn holds(&self) -> bool {
        self.pos >= 1
    }

    /// The program before its first call: it begins with line 1
    pub fn new() -> (hello: Hello)
        ensures
            hello.wf(),
            hello.no == 1,
            hello.pos == 0,
    {
        Hello { no: 1, pos: 0 }
    }

    /// Returns the call that the program makes next, and steps behind it.
    /// After the last call of a round comes the round of the next line.
    pub fn next(&mut self) -> (call: Call)
        requires
            old(self).wf(),
            old(self).pos + 1 == round(old(self).no).len() ==> old(self).no < u32::MAX,
        ensures
            final(self).wf(),
            call == old(self).call(),
            *final(self) == old(self).behind_call(),
    {
        let calls = round_calls(self.no);
        assert(self.pos < calls.len());
        let call = calls[self.pos];
        if self.pos + 1 < calls.len() {
            self.pos = self.pos + 1;
        } else {
            self.no = self.no + 1;
            self.pos = 0;
        }
        call
    }
}

/// Number of the programs `progs` that hold the semaphore.
pub open spec fn holders(progs: Seq<Hello>) -> nat
    decreases progs.len(),
{
    if progs.len() == 0 {
        0
    } else {
        holders(progs.drop_last()) + if progs.last().holds() {
            1nat
        } else {
            0nat
        }
    }
}

/// Whether the semaphore of `k` guards the programs `progs`, of which
/// `free` may hold it at the same time: every program stands inside its
/// round, and the counter of the semaphore is what the programs that hold it
/// have left of `free`.
pub open spec fn guarded(k: Kernel, progs: Seq<Hello>, free: nat) -> bool {
    &&& forall|i: int| 0 <= i < progs.len() ==> (#[trigger] progs[i]).wf()
    &&& k.sem.count() + holders(progs) == free
}

/// Where program `h` stands once the kernel `k` has served its next call: a
/// take of the semaphore that finds the counter at zero is not over, and the
/// program makes it again; every other call is over.
pub open spec fn served_for(k: Kernel, h: Hello) -> Hello {
    if h.call().no == SYS_DOWN && k.sem.count() == 0 {
        h
    } else {
        h.behind_call()
    }
}

/// What a change of one program does to the number of programs that hold
/// the semaphore.
proof fn lemma_holders_update(progs: Seq<Hello>, i: int, h: Hello)
    requires
        0 <= i < progs.len(),
    ensures
        holders(progs.update(i, h)) + (if progs[i].holds() {
            1nat
        } else {
            0nat
        }) == holders(progs) + (if h.holds() {
            1nat
        } else {
            0nat
        }),
    decreases progs.len(),
{
    let changed = progs.update(i, h);
    if i == progs.len() - 1 {
        assert(changed.drop_last() =~= progs.drop_last());
    } else {
        assert(changed.drop_last() =~= progs.drop_last().update(i, h));
        lemma_holders_update(progs.drop_last(), i, h);
    }
}

/// No more programs hold the semaphore than there are programs, and a
/// program that holds it is one of them.
proof fn lemma_holders_bound(progs: Seq<Hello>, i: int, j: int)
    requires
        0 <= i < progs.len(),
        0 <= j < progs.len(),
    ensures
        progs[i].holds() ==> holders(progs) >= 1,
        progs[i].holds() && progs[j].holds() && i != j ==> holders(progs) >= 2,
    decreases progs.len(),
{
    let rest = progs.drop_last();
    let last = progs.len() - 1;
    if i < last && j < last {
        lemma_holders_bound(rest, i, j);
    } else if i < last {
        lemma_holders_bound(rest, i, i);
    } else if j < last {
        lemma_holders_bound(rest, j, j);
    }
}

/// The power of ten with the exponent `k`.
pub open spec fn pow10(k: nat) -> nat
    decreases k,
{
    if k == 0 {
        1
    } else {
        10 * pow10((k - 1) as nat)
    }
}

/// A number below the `k`-th power of ten has at least one digit and no
/// more than `k`.
pub proof fn lemma_digits_len(n: nat, k: nat)
    requires
        k >= 1,
        n < pow10(k),
    ensures
        1 <= digits(n).len() <= k,
    decreases k,
{
    reveal_with_fuel(pow10, 2);
    if n >= 10 {
        lemma_digits_len(n / 10, (k - 1) as nat);
    }
}

/// The calls of a round: the first takes the semaphore, the last raises it,
/// and all between put out a byte. A round has no more than 26 calls.
pub proof fn lemma_round(no: u32, pos: int)
    requires
        0 <= pos < round(no).len(),
    ensures
        2 <= round(no).len() <= 26,
        pos == 0 <==> round(no)[pos].no == SYS_DOWN,
        pos == round(no).len() - 1 <==> round(no)[pos].no == SYS_UP,
        0 < pos < round(no).len() - 1 <==> round(no)[pos].no == SYS_PUTC,
{
    assert(pow10(10) == 10_000_000_000) by {
        reveal_with_fuel(pow10, 11);
    }
    lemma_digits_len(no as nat, 10);
}

/// The semaphore keeps guarding the programs when the kernel serves the
/// next call of one of them: the program takes the semaphore only from a
/// counter above zero, puts out bytes only while it holds the semaphore, and
/// raises the semaphore only while it holds it.
pub proof fn lemma_guarded_call(
    k: Kernel,
    progs: Seq<Hello>,
    free: nat,
    i: int,
    state: State,
    after: Kernel,
    state_after: State,
    ops: Seq<Op>,
)
    requires
        guarded(k, progs, free),
        free <= u32::MAX,
        0 <= i < progs.len(),
        state.eax == progs[i].call().no,
        state.ecx == progs[i].call().arg,
        served(k, state, after, state_after, ops),
        progs[i].pos + 1 == round(progs[i].no).len() ==> progs[i].no < u32::MAX,
    ensures
        guarded(after, progs.update(i, served_for(k, progs[i])), free),
        progs[i].call().no == SYS_PUTC ==> progs[i].holds(),
        progs[i].call().no == SYS_UP ==> progs[i].holds(),
        progs[i].call().no == SYS_DOWN ==> !progs[i].holds(),
{
    let h = progs[i];
    let next = served_for(k, h);
    let call = h.call();
    lemma_round(h.no, h.pos as int);
    lemma_holders_update(progs, i, next);
    lemma_holders_bound(progs, i, i);
    assert(round(next.no).len() >= 2);
    if call.no == SYS_DOWN {
        assert(h.pos == 0);
        if k.sem.count() > 0 {
            assert(after.sem.count() == k.sem.count() - 1);
            assert(next.holds() && !h.holds());
        } else {
            assert(after.sem.count() == 0);
            assert(next == h);
        }
    } else if call.no == SYS_PUTC {
        assert(after.sem == k.sem);
        assert(next.holds() && h.holds());
    } else {
        assert(call.no == SYS_UP);
        assert(h.holds() && !next.holds());
        assert(k.sem.count() < u32::MAX);
        assert(after.sem.count() == k.sem.count() + 1);
    }
    assert(next.wf());
    assert forall|j: int| 0 <= j < progs.len() implies (#[trigger] progs.update(i, next)[j]).wf() by {
        if j != i {
            assert(progs[j].wf());
        }
    }
}

/// The semaphore keeps guarding the programs over a tick of the timer,
/// whichever task runs after it, and over the waking of a task that has
/// waited for the semaphore: neither changes the counter.
pub proof fn lemma_guarded_tick(
    k: Kernel,
    progs: Seq<Hello>,
    free: nat,
    irq: usize,
    after: Kernel,
    ops: Seq<Op>,
)
    requires
        guarded(k, progs, free),
        crate::ticked(k, irq, after, ops) || (after == (Kernel { sem: after.sem, ..k })
            && after.sem.count() == k.sem.count()),
    ensures
        guarded(after, progs, free),
{
}

/// Mutual exclusion: no more of the programs that a semaphore guards hold it
/// at the same time than may. Where one may, no two programs are between
/// their take and their raise, and so no two are putting out a line.
pub proof fn lemma_guarded_exclusion(k: Kernel, progs: Seq<Hello>, free: nat, i: int, j: int)
    requires
        guarded(k, progs, free),
        0 <= i < progs.len(),
        0 <= j < progs.len(),
        i != j,
    ensures
        holders(progs) <= free,
        free == 1 ==> !(progs[i].holds() && progs[j].holds()),
{
    lemma_holders_bound(progs, i, j);
}

} // verus!
