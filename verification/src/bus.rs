//! Carrying out a script: a machine that says, one bus access at a time,
//! what to read or write next, and takes in what was read.

use vstd::prelude::*;
use crate::i2c::{
    i2c_read_register, i2c_write_register, poll, polled, read_register_steps, receive_data_steps,
    send_address_steps, send_data_steps, start_steps, stop_op, write_register_steps, I2CError, I2cStep,
    Poll,
};
use crate::reg::{bit_of, reg_read_bit, RegOp};

verus! {

/// What the machine asks for next.
#[derive(Copy, Clone, Debug, PartialEq, Eq, Structural)]
pub enum BusAction {
    /// Read the register at `addr` and hand its value to the next call.
    Read { addr: u32 },
    /// Write `value` to the register at `addr`.
    Write { addr: u32, value: u32 },
    /// The script is over; `last` is the last value that it fetched.
    Finished { last: u32 },
    /// The script is over: a wait has failed.
    Failed { error: I2CError },
}

impl BusAction {
    /// Whether the action says that the script is over.
    pub open spec fn is_over(self) -> bool {
        self is Finished || self is Failed
    }
}

/// Whether a step can be carried out: its bits lie within the register,
/// and a wait has at least one try.
pub open spec fn step_in_range(step: I2cStep) -> bool {
    match step {
        I2cStep::Reg(op) => op.in_range(),
        I2cStep::Await { bit, tries, .. } => bit < 32 && tries > 0,
    }
}

/// Whether every step of a script can be carried out.
pub open spec fn script_in_range(steps: Seq<I2cStep>) -> bool {
    forall|i: int| 0 <= i < steps.len() ==> step_in_range(#[trigger] steps[i])
}

/// A script in the middle of being carried out.
pub struct TransferView {
    pub steps: Seq<I2cStep>,
    /// The step that is being carried out, or is next.
    pub pc: nat,
    /// Whether a read was asked for on behalf of step `pc` and its value is
    /// still to come.
    pub reading: bool,
    /// For a wait: how many tries are left.
    pub tries_left: u32,
    /// The last value that the script has fetched.
    pub last: u32,
    /// The error of the wait that failed, if one has.
    pub failed: Option<I2CError>,
}

impl TransferView {
    pub open spec fn wf(self) -> bool {
        &&& script_in_range(self.steps)
        &&& self.pc <= self.steps.len()
        &&& self.reading ==> {
            &&& self.pc < self.steps.len()
            &&& self.failed is None
            &&& match self.steps[self.pc as int] {
                I2cStep::Reg(RegOp::SetVal { .. }) => false,
                I2cStep::Reg(_) => true,
                I2cStep::Await { .. } => self.tries_left > 0,
            }
        }
    }

    /// A script before its first step.
    pub open spec fn start(steps: Seq<I2cStep>) -> TransferView {
        TransferView { steps, pc: 0, reading: false, tries_left: 0, last: 0, failed: None }
    }

    /// With no read under way: the next step is taken up. A plain write is
    /// asked for at once; every other step starts with a read of its
    /// register; past the last step the script is over.
    pub open spec fn issue(self) -> (TransferView, BusAction) {
        if self.pc >= self.steps.len() {
            (self, BusAction::Finished { last: self.last })
        } else {
            match self.steps[self.pc as int] {
                I2cStep::Reg(RegOp::SetVal { addr, value }) => (
                    TransferView { pc: self.pc + 1, ..self },
                    BusAction::Write { addr, value },
                ),
                I2cStep::Reg(op) => (
                    TransferView { reading: true, ..self },
                    BusAction::Read {
                        addr: match op {
                            RegOp::SetBit { addr, .. } => addr,
                            RegOp::SetBits { addr, .. } => addr,
                            RegOp::SetVal { addr, .. } => addr,
                            RegOp::ReadBit { addr, .. } => addr,
                            RegOp::GetVal { addr } => addr,
                        },
                    },
                ),
                I2cStep::Await { addr, tries, .. } => (
                    TransferView { reading: true, tries_left: tries, ..self },
                    BusAction::Read { addr },
                ),
            }
        }
    }

    /// One call of the machine, with `response` the value of the read that
    /// the call before asked for, if it asked for one.
    ///
    /// After a failed wait the script stays over. With a read under way,
    /// the value goes to the step that asked for it: a change of bits
    /// writes the changed value back; a fetch or a bit test keeps the value
    /// as the last one fetched and goes on; a wait goes on if its flag is
    /// set, reads again if tries are left, and fails the script otherwise.
    pub open spec fn advanced(self, response: u32) -> (TransferView, BusAction) {
        if self.failed is Some {
            (self, BusAction::Failed { error: self.failed->Some_0 })
        } else if self.reading && self.pc < self.steps.len() {
            let next = TransferView { pc: self.pc + 1, reading: false, ..self };
            match self.steps[self.pc as int] {
                I2cStep::Reg(RegOp::SetBit { addr, bit, on }) => (
                    next,
                    BusAction::Write {
                        addr,
                        value: (RegOp::SetBit { addr, bit, on }).applied(response),
                    },
                ),
                I2cStep::Reg(RegOp::SetBits { addr, value, position, width }) => (
                    next,
                    BusAction::Write {
                        addr,
                        value: (RegOp::SetBits { addr, value, position, width }).applied(response),
                    },
                ),
                I2cStep::Reg(RegOp::ReadBit { bit, .. }) => (TransferView {
                    last: if bit_of(response, bit) {
                        1
                    } else {
                        0
                    },
                    ..next
                }).issue(),
                I2cStep::Reg(_) => (TransferView { last: response, ..next }).issue(),
                I2cStep::Await { addr, bit, error, .. } => match polled(
                    self.tries_left,
                    bit_of(response, bit),
                ) {
                    Poll::Ready => next.issue(),
                    Poll::Retry(left) => (
                        TransferView { tries_left: left, ..self },
                        BusAction::Read { addr },
                    ),
                    Poll::GiveUp => (
                        TransferView { reading: false, failed: Some(error), ..self },
                        BusAction::Failed { error },
                    ),
                },
            }
        } else {
            self.issue()
        }
    }

    /// How many calls the script can still take, at most, the one counted
    /// that says that it is over: for each step yet to come what
    /// `calls_of` says, and for the step with a read under way the write
    /// that follows it, or the tries of the wait that are left.
    pub open spec fn calls_left(self) -> nat {
        if self.failed is Some {
            0
        } else if self.reading && self.pc < self.steps.len() {
            (match self.steps[self.pc as int] {
                I2cStep::Reg(RegOp::SetBit { .. }) => 1nat,
                I2cStep::Reg(RegOp::SetBits { .. }) => 1nat,
                I2cStep::Reg(_) => 0nat,
                I2cStep::Await { .. } => (self.tries_left - 1) as nat,
            }) + calls_from(self.steps, self.pc as int + 1)
        } else {
            calls_from(self.steps, self.pc as int)
        }
    }
}

/// How many calls a step takes, at most: two for a change of bits, the
/// read and the write; one for a write, a fetch or a test; one for each
/// try of a wait.
pub open spec fn calls_of(step: I2cStep) -> nat {
    match step {
        I2cStep::Reg(RegOp::SetBit { .. }) => 2,
        I2cStep::Reg(RegOp::SetBits { .. }) => 2,
        I2cStep::Reg(_) => 1,
        I2cStep::Await { tries, .. } => tries as nat,
    }
}

/// How many calls the steps from `from` on take, at most, the call that
/// says that the script is over counted.
pub open spec fn calls_from(steps: Seq<I2cStep>, from: int) -> nat
    decreases steps.len() - from,
{
    if from >= steps.len() || from < 0 {
        1
    } else {
        calls_of(steps[from]) + calls_from(steps, from + 1)
    }
}

/// A script in the middle of being carried out.
pub struct Transfer {
    steps: Vec<I2cStep>,
    pc: usize,
    reading: bool,
    tries_left: u32,
    last: u32,
    failed: Option<I2CError>,
}

impl View for Transfer {
    type V = TransferView;

    closed spec fn view(&self) -> TransferView {
        TransferView {
            steps: self.steps@,
            pc: self.pc as nat,
            reading: self.reading,
            tries_left: self.tries_left,
            last: self.last,
            failed: self.failed,
        }
    }
}

/// Checks that every step of a script can be carried out.
pub fn check_script(steps: &Vec<I2cStep>) -> (ok: bool)
    ensures
        ok == script_in_range(steps@),
{
    let mut i: usize = 0;
    while i < steps.len()
        invariant
            i <= steps.len(),
            forall|k: int| 0 <= k < i ==> step_in_range(#[trigger] steps@[k]),
        decreases steps.len() - i,
    {
        let ok = match steps[i] {
            I2cStep::Reg(op) => op.is_in_range(),
            I2cStep::Await { bit, tries, .. } => bit < 32 && tries > 0,
        };
        if !ok {
            assert(!step_in_range(steps@[i as int]));
            return false;
        }
        i += 1;
    }
    true
}

impl Transfer {
    #[verifier::type_invariant]
    spec fn inv(&self) -> bool {
        self@.wf()
    }

    /// Takes up a script, if every step of it can be carried out.
    pub fn new(steps: Vec<I2cStep>) -> (r: Option<Transfer>)
        ensures
            script_in_range(steps@) <==> r is Some,
            r matches Some(t) ==> t@ == TransferView::start(steps@) && t@.wf(),
    {
        if !check_script(&steps) {
            return None;
        }
        Some(Transfer { steps, pc: 0, reading: false, tries_left: 0, last: 0, failed: None })
    }

    /// Takes up the script that reads a register of a device.
    pub fn for_read_register(device_addr: u8, reg_addr: u8) -> (t: Transfer)
        ensures
            t@ == TransferView::start(read_register_steps(device_addr, reg_addr)),
            t@.wf(),
    {
        proof {
            lemma_register_scripts_in_range(device_addr, reg_addr, 0);
        }
        Transfer {
            steps: i2c_read_register(device_addr, reg_addr),
            pc: 0,
            reading: false,
            tries_left: 0,
            last: 0,
            failed: None,
        }
    }

    /// Takes up the script that writes a register of a device.
    pub fn for_write_register(device_addr: u8, reg_addr: u8, data: u8) -> (t: Transfer)
        ensures
            t@ == TransferView::start(write_register_steps(device_addr, reg_addr, data)),
            t@.wf(),
    {
        proof {
            lemma_register_scripts_in_range(device_addr, reg_addr, data);
        }
        Transfer {
            steps: i2c_write_register(device_addr, reg_addr, data),
            pc: 0,
            reading: false,
            tries_left: 0,
            last: 0,
            failed: None,
        }
    }

    /// With no read under way: takes up the next step.
    fn issue(&mut self) -> (action: BusAction)
        requires
            !old(self)@.reading,
            old(self)@.failed is None,
        ensures
            final(self)@ == old(self)@.issue().0,
            action == old(self)@.issue().1,
            final(self)@.wf(),
    {
        proof {
            use_type_invariant(&*self);
        }
        if self.pc >= self.steps.len() {
            return BusAction::Finished { last: self.last };
        }
        match self.steps[self.pc] {
            I2cStep::Reg(RegOp::SetVal { addr, value }) => {
                self.pc = self.pc + 1;
                BusAction::Write { addr, value }
            },
            I2cStep::Reg(op) => {
                self.reading = true;
                BusAction::Read { addr: op.addr() }
            },
            I2cStep::Await { addr, tries, .. } => {
                self.tries_left = tries;
                self.reading = true;
                BusAction::Read { addr }
            },
        }
    }

    /// Says what to do next. `response` is the value of the read that the
    /// call before asked for; where that call asked for none, or this is
    /// the first call, it is not looked at.
    pub fn advance(&mut self, response: u32) -> (action: BusAction)
        ensures
            old(self)@.wf(),
            final(self)@ == old(self)@.advanced(response).0,
            action == old(self)@.advanced(response).1,
            final(self)@.wf(),
            !action.is_over() ==> final(self)@.calls_left() < old(self)@.calls_left(),
    {
        proof {
            use_type_invariant(&*self);
            lemma_advance_counts_down(self@, response);
        }
        match self.failed {
            Some(e) => {
                return BusAction::Failed { error: e };
            },
            None => {},
        }
        if self.reading && self.pc < self.steps.len() {
            let step = self.steps[self.pc];
            match step {
                I2cStep::Reg(RegOp::SetBit { addr, bit, on }) => {
                    let op = RegOp::SetBit { addr, bit, on };
                    self.reading = false;
                    self.pc = self.pc + 1;
                    BusAction::Write { addr, value: op.apply(response) }
                },
                I2cStep::Reg(RegOp::SetBits { addr, value, position, width }) => {
                    let op = RegOp::SetBits { addr, value, position, width };
                    self.reading = false;
                    self.pc = self.pc + 1;
                    BusAction::Write { addr, value: op.apply(response) }
                },
                I2cStep::Reg(RegOp::ReadBit { addr, bit }) => {
                    self.reading = false;
                    self.pc = self.pc + 1;
                    self.last = if reg_read_bit(response, bit) { 1 } else { 0 };
                    self.issue()
                },
                I2cStep::Reg(_) => {
                    self.reading = false;
                    self.pc = self.pc + 1;
                    self.last = response;
                    self.issue()
                },
                I2cStep::Await { addr, bit, tries, error } => {
                    match poll(self.tries_left, reg_read_bit(response, bit)) {
                        Poll::Ready => {
                            self.reading = false;
                            self.pc = self.pc + 1;
                            self.issue()
                        },
                        Poll::Retry(left) => {
                            self.tries_left = left;
                            BusAction::Read { addr }
                        },
                        Poll::GiveUp => {
                            self.reading = false;
                            self.failed = Some(error);
                            BusAction::Failed { error }
                        },
                    }
                },
            }
        } else {
            self.reading = false;
            self.issue()
        }
    }
}

/// Two scripts that can be carried out can be carried out one after the
/// other.
pub proof fn lemma_joined_scripts_in_range(first: Seq<I2cStep>, second: Seq<I2cStep>)
    requires
        script_in_range(first),
        script_in_range(second),
    ensures
        script_in_range(first + second),
{
    assert forall|i: int| 0 <= i < (first + second).len() implies step_in_range(
        #[trigger] (first + second)[i],
    ) by {
        if i < first.len() {
            assert((first + second)[i] == first[i]);
        } else {
            assert((first + second)[i] == second[i - first.len()]);
        }
    }
}

/// The scripts that read and write a register of a device can always be
/// carried out.
pub proof fn lemma_register_scripts_in_range(device_addr: u8, reg_addr: u8, data: u8)
    ensures
        script_in_range(read_register_steps(device_addr, reg_addr)),
        script_in_range(write_register_steps(device_addr, reg_addr, data)),
{
    let start = start_steps();
    let to_write = send_address_steps(device_addr, false);
    let to_read = send_address_steps(device_addr, true);
    let reg = send_data_steps(reg_addr);
    let value = send_data_steps(data);
    let receive = receive_data_steps(false);
    let stop = seq![I2cStep::Reg(stop_op())];
    assert(script_in_range(start));
    assert(script_in_range(to_write));
    assert(script_in_range(to_read));
    assert(script_in_range(reg));
    assert(script_in_range(value));
    assert(script_in_range(receive));
    assert(script_in_range(stop));
    lemma_joined_scripts_in_range(start, to_write);
    lemma_joined_scripts_in_range(start + to_write, reg);
    lemma_joined_scripts_in_range(start + to_write + reg, value);
    lemma_joined_scripts_in_range(start + to_write + reg + value, stop);
    lemma_joined_scripts_in_range(start + to_write + reg, start);
    lemma_joined_scripts_in_range(start + to_write + reg + start, to_read);
    lemma_joined_scripts_in_range(start + to_write + reg + start + to_read, receive);
    lemma_joined_scripts_in_range(start + to_write + reg + start + to_read + receive, stop);
}

/// Taking up the next step uses up a call, unless the script is over.
pub proof fn lemma_issue_counts_down(v: TransferView)
    requires
        v.wf(),
        !v.reading,
        v.failed is None,
    ensures
        v.issue().0.wf(),
        !v.issue().1.is_over() ==> v.issue().0.calls_left() < v.calls_left(),
{
    if v.pc < v.steps.len() {
        assert(step_in_range(v.steps[v.pc as int]));
    }
}

/// The machine comes to an end: every call that does not say that the
/// script is over leaves fewer calls to make, and what the machine holds
/// stays well-formed.
pub proof fn lemma_advance_counts_down(v: TransferView, response: u32)
    requires
        v.wf(),
    ensures
        v.advanced(response).0.wf(),
        !v.advanced(response).1.is_over() ==> v.advanced(response).0.calls_left() < v.calls_left(),
{
    if v.failed is Some {
    } else if v.reading && v.pc < v.steps.len() {
        let next = TransferView { pc: v.pc + 1, reading: false, ..v };
        assert(step_in_range(v.steps[v.pc as int]));
        match v.steps[v.pc as int] {
            I2cStep::Reg(RegOp::SetBit { .. }) => {},
            I2cStep::Reg(RegOp::SetBits { .. }) => {},
            I2cStep::Reg(RegOp::ReadBit { bit, .. }) => {
                lemma_issue_counts_down(
                    TransferView { last: if bit_of(response, bit) { 1 } else { 0 }, ..next },
                );
            },
            I2cStep::Reg(_) => {
                lemma_issue_counts_down(TransferView { last: response, ..next });
            },
            I2cStep::Await { .. } => {
                lemma_issue_counts_down(next);
            },
        }
    } else {
        lemma_issue_counts_down(v);
    }
}

} // verus!
