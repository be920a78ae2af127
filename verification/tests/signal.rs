use std::cell::Cell;
use swtc::signal::{WaitQueue, k_sigaction, SignalAction, SignalActionFlags, SignalDisposition, SA_RESTART, SA_SIGINFO, SA_RESTORER,
    DefaultSignalAction, MContext, PendingSignals, SignalInfo, SignalSet, SignalStack, Signo, TrapFrame,
    UContext};

#[test]
fn signal_numbers_round_trip() {
    assert_eq!(Signo::SIGHUP.number(), 1);
    assert_eq!(Signo::SIGKILL.number(), 9);
    assert_eq!(Signo::SIGRTMIN.number(), 32);
    assert_eq!(Signo::SIGRT32.number(), 64);
    assert_eq!(Signo::from_repr(17), Some(Signo::SIGCHLD));
    assert_eq!(Signo::from_repr(0), None);
    assert_eq!(Signo::from_repr(65), None);
}

#[test]
fn realtime_signals() {
    assert!(!Signo::SIGSYS.is_realtime());
    assert!(Signo::SIGRTMIN.is_realtime());
    assert!(Signo::SIGRT5.is_realtime());
}

#[test]
fn default_actions() {
    assert_eq!(Signo::SIGKILL.default_action(), DefaultSignalAction::Terminate);
    assert_eq!(Signo::SIGSEGV.default_action(), DefaultSignalAction::CoreDump);
    assert_eq!(Signo::SIGCHLD.default_action(), DefaultSignalAction::Ignore);
    assert_eq!(Signo::SIGCONT.default_action(), DefaultSignalAction::Continue);
    assert_eq!(Signo::SIGTSTP.default_action(), DefaultSignalAction::Stop);
    assert_eq!(Signo::SIGRT3.default_action(), DefaultSignalAction::Ignore);
}

#[test]
fn set_add_has_remove() {
    let mut s = SignalSet::new();
    assert!(s.is_empty());
    assert!(s.add(Signo::SIGINT));
    assert!(!s.add(Signo::SIGINT));
    assert!(s.has(Signo::SIGINT));
    assert!(!s.has(Signo::SIGTERM));
    assert_eq!(s.0, 2);
    assert!(s.remove(Signo::SIGINT));
    assert!(!s.remove(Signo::SIGINT));
    assert!(s.is_empty());
    assert!(s.add(Signo::SIGRT32));
    assert_eq!(s.0, 1u64 << 63);
}

#[test]
fn dequeue_takes_lowest_in_mask() {
    let mut s = SignalSet::new();
    s.add(Signo::SIGTERM);
    s.add(Signo::SIGINT);
    s.add(Signo::SIGUSR1);
    let mut mask = SignalSet::new();
    mask.add(Signo::SIGTERM);
    mask.add(Signo::SIGUSR1);
    assert_eq!(s.dequeue(&mask), Some(Signo::SIGUSR1));
    assert_eq!(s.dequeue(&mask), Some(Signo::SIGTERM));
    assert_eq!(s.dequeue(&mask), None);
    assert!(s.has(Signo::SIGINT));
}

#[test]
fn signal_stack_default_is_disabled() {
    let st = SignalStack::default();
    assert!(st.disabled());
    assert_eq!((st.sp, st.size), (0, 0));
}

#[test]
fn standard_signals_coalesce() {
    let mut p = PendingSignals::new();
    assert!(p.put_signal(SignalInfo::new(Signo::SIGUSR1, 1)));
    assert!(!p.put_signal(SignalInfo::new(Signo::SIGUSR1, 2)));
    let mut all = SignalSet::new();
    all.add(Signo::SIGUSR1);
    assert_eq!(p.dequeue_signal(&all), Some(SignalInfo::new(Signo::SIGUSR1, 1)));
    assert_eq!(p.dequeue_signal(&all), None);
}

#[test]
fn realtime_signals_queue_in_order() {
    let mut p = PendingSignals::new();
    assert!(p.put_signal(SignalInfo::new(Signo::SIGRT1, 1)));
    assert!(p.put_signal(SignalInfo::new(Signo::SIGRT1, 2)));
    let mut mask = SignalSet::new();
    mask.add(Signo::SIGRT1);
    assert_eq!(p.dequeue_signal(&mask), Some(SignalInfo::new(Signo::SIGRT1, 1)));
    assert!(p.set.has(Signo::SIGRT1));
    assert_eq!(p.dequeue_signal(&mask), Some(SignalInfo::new(Signo::SIGRT1, 2)));
    assert!(!p.set.has(Signo::SIGRT1));
    assert_eq!(p.dequeue_signal(&mask), None);
}

#[test]
fn masked_signals_stay_pending() {
    let mut p = PendingSignals::new();
    p.put_signal(SignalInfo::new(Signo::SIGTERM, 0));
    let mut mask = SignalSet::new();
    mask.add(Signo::SIGINT);
    assert_eq!(p.dequeue_signal(&mask), None);
    assert!(p.set.has(Signo::SIGTERM));
}

#[test]
fn signal_info_accessors() {
    let mut i = SignalInfo::new(Signo::SIGALRM, 7);
    assert_eq!(i.signo(), Signo::SIGALRM);
    assert_eq!(i.code(), 7);
    i.set_signo(Signo::SIGIO);
    i.set_code(-1);
    assert_eq!((i.signo(), i.code()), (Signo::SIGIO, -1));
}

fn frame() -> TrapFrame {
    TrapFrame {
        rax: 1, rcx: 2, rdx: 3, rbx: 4, rbp: 5, rsi: 6, rdi: 7, r8: 8, r9: 9, r10: 10, r11: 11, r12: 12, r13: 13,
        r14: 14, r15: 15, vector: 14, error_code: 6, rip: 0x401000, cs: 0x33, rflags: 0x202, rsp: 0x7fff0000, ss: 0x2b,
    }
}

#[test]
fn context_save_and_restore_round_trip() {
    let tf = frame();
    let mc = MContext::new(&tf);
    assert_eq!(mc.rip, 0x401000);
    assert_eq!(mc.trapno, 14);
    let mut back = TrapFrame { rax: 0, rcx: 0, rdx: 0, rbx: 0, rbp: 0, rsi: 0, rdi: 0, r8: 0, r9: 0, r10: 0, r11: 0,
        r12: 0, r13: 0, r14: 0, r15: 0, vector: 0, error_code: 0, rip: 0, cs: 0, rflags: 0, rsp: 0, ss: 0x2b };
    mc.restore(&mut back);
    assert_eq!(back, tf);
}

#[test]
fn user_context_holds_mask() {
    let mut mask = SignalSet::new();
    mask.add(Signo::SIGPIPE);
    let uc = UContext::new(&frame(), mask);
    assert_eq!(uc.sigmask, mask);
    assert!(uc.stack.disabled());
    assert_eq!(uc.mcontext.rsp, 0x7fff0000);
}

#[test]
fn signal_action_from_kernel_layout() {
    let raw = k_sigaction { handler: 0x4000, flags: SA_SIGINFO | SA_RESTART, restorer: 0x5000, mask: SignalSet(6) };
    let action = SignalAction::try_from(raw).unwrap();
    assert_eq!(action.disposition, SignalDisposition::Handler(0x4000));
    assert_eq!(action.flags.bits(), SA_SIGINFO | SA_RESTART);
    assert!(action.flags.contains(SignalActionFlags(SA_RESTART)));
    assert!(!action.flags.contains(SignalActionFlags(SA_RESTORER)));
    assert_eq!(action.mask, SignalSet(6));
    assert_eq!(action.restorer, None);
    let ignore = SignalAction::try_from(k_sigaction { handler: 1, flags: 0, restorer: 0, mask: SignalSet(0) }).unwrap();
    assert_eq!(ignore.disposition, SignalDisposition::Ignore);
    let default = SignalAction::try_from(k_sigaction { handler: 0, flags: 0, restorer: 0, mask: SignalSet(0) }).unwrap();
    assert_eq!(default.disposition, SignalDisposition::Default);
}

#[test]
fn signal_action_rejects_unknown_flags() {
    let raw = k_sigaction { handler: 0, flags: 0x1, restorer: 0, mask: SignalSet(0) };
    assert_eq!(SignalAction::try_from(raw), Err(swtc::vma::LinuxError::EINVAL));
    assert_eq!(SignalActionFlags::from_bits(0x8), None);
    assert_eq!(SignalActionFlags::from_bits(SA_SIGINFO), Some(SignalActionFlags(SA_SIGINFO)));
}

#[test]
fn signal_action_round_trip_through_kernel_layout() {
    let action = SignalAction {
        flags: SignalActionFlags(SA_SIGINFO),
        mask: SignalSet(1 << 9),
        disposition: SignalDisposition::Handler(0x1234),
        restorer: None,
    };
    let mut raw = k_sigaction { handler: 7, flags: 7, restorer: 0x99, mask: SignalSet(7) };
    action.to_ctype(&mut raw);
    assert_eq!(raw, k_sigaction { handler: 0x1234, flags: SA_SIGINFO, restorer: 0x99, mask: SignalSet(1 << 9) });
    assert_eq!(SignalAction::try_from(raw), Ok(action));
    let fresh = SignalAction::default();
    assert_eq!(fresh.disposition, SignalDisposition::Default);
    fresh.to_ctype(&mut raw);
    assert_eq!(raw.handler, 0);
}

#[derive(Default)]
struct CountingQueue {
    waits: Cell<usize>,
    last_timeout: Cell<Option<std::time::Duration>>,
}

impl WaitQueue for CountingQueue {
    fn wait_timeout(&self, timeout: Option<std::time::Duration>) -> bool {
        self.waits.set(self.waits.get() + 1);
        self.last_timeout.set(timeout);
        true
    }

    fn notify_one(&self) -> bool {
        false
    }

    fn notify_all(&self) {
        while self.notify_one() {}
    }
}

#[test]
fn wait_queue_wait_has_no_timeout() {
    let q = CountingQueue::default();
    q.last_timeout.set(Some(std::time::Duration::from_secs(1)));
    q.wait();
    assert_eq!(q.waits.get(), 1);
    assert_eq!(q.last_timeout.get(), None);
    q.notify_all();
    assert!(!q.notify_one());
}
