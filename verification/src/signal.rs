//! UNIX signal bookkeeping: signal numbers and their default actions,
//! signal sets, pending signals, signal stacks and saved user contexts.
use crate::vma::LinuxError;
use vstd::prelude::*;

verus! {

/// What happens by default when a signal arrives.
#[derive(Debug, Copy, Clone, PartialEq, Eq, Structural)]
pub enum DefaultSignalAction {
    /// Terminate the process.
    Terminate,
    /// Ignore the signal.
    Ignore,
    /// Terminate the process and generate a core dump.
    CoreDump,
    /// Stop the process.
    Stop,
    /// Continue the process if stopped.
    Continue,
}

/// What the operating system must do about a delivered signal.
#[derive(Debug, Copy, Clone, PartialEq, Eq, Structural)]
pub enum SignalOSAction {
    /// Terminate the process.
    Terminate,
    /// Generate a core dump and terminate the process.
    CoreDump,
    /// Stop the process.
    Stop,
    /// Continue the process if stopped.
    Continue,
    /// A signal handler was set up on the user stack; nothing more to do.
    Handler,
}

/// What a process does with a signal.
#[derive(Debug, Copy, Clone, PartialEq, Eq, Structural)]
pub enum SignalDisposition {
    /// Use the default signal action.
    Default,
    /// Ignore the signal.
    Ignore,
    /// Run the user handler at this address.
    Handler(usize),
}

impl SignalDisposition {
    /// A new disposition is the default one.
    pub fn new() -> (r: Self)
        ensures
            r == SignalDisposition::Default,
    {
        SignalDisposition::Default
    }
}

/// Use extended signal information in the handler.
pub const SA_SIGINFO: u64 = 0x4;
/// Do not block the signal while its handler runs.
pub const SA_NODEFER: u64 = 0x4000_0000;
/// Reset the handler to the default after one run.
pub const SA_RESETHAND: u64 = 0x8000_0000;
/// Restart interrupted system calls.
pub const SA_RESTART: u64 = 0x1000_0000;
/// Run the handler on the alternate signal stack.
pub const SA_ONSTACK: u64 = 0x0800_0000;
/// Do not report stopped children.
pub const SA_NOCLDSTOP: u64 = 0x2000_0000;
/// A restorer function is given.
pub const SA_RESTORER: u64 = 0x0400_0000;
/// Every flag a signal action may carry.
pub const SA_ALL: u64 = SA_SIGINFO | SA_NODEFER | SA_RESETHAND | SA_RESTART | SA_ONSTACK | SA_NOCLDSTOP
    | SA_RESTORER;

/// The flags of a signal action.
#[derive(Debug, Copy, Clone, PartialEq, Eq, Structural)]
pub struct SignalActionFlags(pub u64);

impl SignalActionFlags {
    /// The flags `bits`, where every bit of it is a known flag.
    pub fn from_bits(bits: u64) -> (r: Option<SignalActionFlags>)
        ensures
            r == (if bits & !SA_ALL == 0 {
                Some(SignalActionFlags(bits))
            } else {
                None
            }),
    {
        if bits & !SA_ALL == 0 {
            Some(SignalActionFlags(bits))
        } else {
            None
        }
    }

    /// The bits of the flags.
    pub fn bits(&self) -> (r: u64)
        ensures
            r == self.0,
    {
        self.0
    }

    /// Whether every bit of `other` is set.
    pub fn contains(&self, other: SignalActionFlags) -> (r: bool)
        ensures
            r == (self.0 & other.0 == other.0),
    {
        self.0 & other.0 == other.0
    }
}

/// A signal action as the kernel interface lays it out: the handler address (0 for the
/// default, 1 for ignoring), the flags, the restorer address (0 for none) and the mask.
#[allow(non_camel_case_types)]
#[derive(Debug, Copy, Clone, PartialEq, Eq, Structural)]
pub struct k_sigaction {
    pub handler: usize,
    pub flags: u64,
    pub restorer: usize,
    /// Signals blocked while the handler runs.
    pub mask: SignalSet,
}

/// How a process handles one signal: the flags, the signals blocked while the handler
/// runs, what to do with the signal, and the restorer, if any.
#[derive(Debug, Copy, Clone, PartialEq, Eq, Structural)]
pub struct SignalAction {
    pub flags: SignalActionFlags,
    pub mask: SignalSet,
    pub disposition: SignalDisposition,
    pub restorer: Option<usize>,
}

/// What a handler address means: 0 the default action, 1 ignoring, any other the handler
/// at that address.
pub open spec fn disposition_of(handler: usize) -> SignalDisposition {
    if handler == 0 {
        SignalDisposition::Default
    } else if handler == 1 {
        SignalDisposition::Ignore
    } else {
        SignalDisposition::Handler(handler)
    }
}

/// The action that the kernel layout `value` gives: `EINVAL` where its flags carry an
/// unknown bit; no restorer.
pub open spec fn action_of(value: k_sigaction) -> Result<SignalAction, LinuxError> {
    if value.flags & !SA_ALL == 0 {
        Ok(
            SignalAction {
                flags: SignalActionFlags(value.flags),
                mask: value.mask,
                disposition: disposition_of(value.handler),
                restorer: None,
            },
        )
    } else {
        Err(LinuxError::EINVAL)
    }
}

/// The kernel layout `dest` once the action `a` is written into it.
pub open spec fn ctype_of(a: SignalAction, dest: k_sigaction) -> k_sigaction {
    k_sigaction {
        handler: match a.disposition {
            SignalDisposition::Default => 0usize,
            SignalDisposition::Ignore => 1usize,
            SignalDisposition::Handler(h) => h,
        },
        flags: a.flags.0,
        restorer: dest.restorer,
        mask: a.mask,
    }
}

impl SignalAction {
    /// The action read from the kernel layout: fails with `EINVAL` where the flags carry an
    /// unknown bit. The restorer is not taken over: this layout passes none.
    pub fn try_from(value: k_sigaction) -> (r: Result<SignalAction, LinuxError>)
        ensures
            r == action_of(value),
    {
        let flags = match SignalActionFlags::from_bits(value.flags) {
            Some(f) => f,
            None => {
                return Err(LinuxError::EINVAL);
            },
        };
        let disposition = if value.handler == 0 {
            SignalDisposition::Default
        } else if value.handler == 1 {
            SignalDisposition::Ignore
        } else {
            SignalDisposition::Handler(value.handler)
        };
        Ok(SignalAction { flags, mask: value.mask, disposition, restorer: None })
    }

    /// Writes the action into the kernel layout: flags, mask and handler address; the
    /// restorer there stays.
    pub fn to_ctype(&self, dest: &mut k_sigaction)
        ensures
            *final(dest) == ctype_of(*self, *old(dest)),
    {
        dest.flags = self.flags.bits();
        dest.mask = self.mask;
        dest.handler = match self.disposition {
            SignalDisposition::Default => 0,
            SignalDisposition::Ignore => 1,
            SignalDisposition::Handler(h) => h,
        };
    }
}

impl Default for SignalAction {
    /// No flag, an empty mask, the default action, no restorer.
    fn default() -> (r: Self)
        ensures
            r == (SignalAction {
                flags: SignalActionFlags(0),
                mask: SignalSet(0),
                disposition: SignalDisposition::Default,
                restorer: None,
            }),
    {
        SignalAction {
            flags: SignalActionFlags(0),
            mask: SignalSet(0),
            disposition: SignalDisposition::Default,
            restorer: None,
        }
    }
}

/// Reading an action back from what `to_ctype` wrote gives the action again, where its
/// flags are known ones, its handler is not at address 0 or 1, and it has no restorer.
pub proof fn lemma_action_round_trip(a: SignalAction, dest: k_sigaction)
    requires
        a.flags.0 & !SA_ALL == 0,
        a.restorer is None,
        a.disposition matches SignalDisposition::Handler(h) ==> h != 0 && h != 1,
    ensures
        action_of(ctype_of(a, dest)) == Ok::<SignalAction, LinuxError>(a),
{
}

/// A queue of threads waiting for a notification; the kernel supplies the
/// implementation.
pub trait WaitQueue: Default {
    /// Waits for a notification, or until `timeout` passes where one is given; tells
    /// whether a notification came.
    fn wait_timeout(&self, timeout: Option<core::time::Duration>) -> bool;

    /// Waits for a notification, however long it takes.
    fn wait(&self) {
        self.wait_timeout(None);
    }

    /// Wakes one waiting thread; tells whether one was waiting.
    fn notify_one(&self) -> bool;

    /// Wakes every waiting thread.
    fn notify_all(&self);
}

/// A signal number, 1 to 64: the standard signals (1 to 31) and the
/// real-time signals (32 to 64).
#[derive(Debug, Copy, Clone, PartialEq, Eq, Structural)]
pub enum Signo {
    /// Hangup detected on controlling terminal or death of controlling process
    SIGHUP,
    /// Interrupt from keyboard (Ctrl+C)
    SIGINT,
    /// Quit from keyboard (Ctrl+\)
    SIGQUIT,
    /// Illegal instruction
    SIGILL,
    /// Trace/breakpoint trap
    SIGTRAP,
    /// Abort signal from abort(3)
    SIGABRT,
    /// Bus error (bad memory access)
    SIGBUS,
    /// Floating-point exception
    SIGFPE,
    /// Kill signal (cannot be caught or ignored)
    SIGKILL,
    /// User-defined signal 1
    SIGUSR1,
    /// Segmentation fault (invalid memory reference)
    SIGSEGV,
    /// User-defined signal 2
    SIGUSR2,
    /// Broken pipe: write to pipe with no readers
    SIGPIPE,
    /// Timer signal from alarm(2)
    SIGALRM,
    /// Termination signal
    SIGTERM,
    /// Stack fault on coprocessor (unused)
    SIGSTKFLT,
    /// Child stopped or terminated
    SIGCHLD,
    /// Continue if stopped
    SIGCONT,
    /// Stop process (cannot be caught or ignored)
    SIGSTOP,
    /// Stop typed at terminal
    SIGTSTP,
    /// Terminal input for background process
    SIGTTIN,
    /// Terminal output for background process
    SIGTTOU,
    /// Urgent condition on socket
    SIGURG,
    /// CPU time limit exceeded
    SIGXCPU,
    /// File size limit exceeded
    SIGXFSZ,
    /// Virtual alarm clock
    SIGVTALRM,
    /// Profiling alarm clock
    SIGPROF,
    /// Window resize signal
    SIGWINCH,
    /// I/O now possible
    SIGIO,
    /// Power failure (System V)
    SIGPWR,
    /// Bad system call (SVr4)
    SIGSYS,
    /// Real-time signal 0 (minimum)
    SIGRTMIN,
    /// Real-time signal 1
    SIGRT1,
    /// Real-time signal 2
    SIGRT2,
    /// Real-time signal 3
    SIGRT3,
    /// Real-time signal 4
    SIGRT4,
    /// Real-time signal 5
    SIGRT5,
    /// Real-time signal 6
    SIGRT6,
    /// Real-time signal 7
    SIGRT7,
    /// Real-time signal 8
    SIGRT8,
    /// Real-time signal 9
    SIGRT9,
    /// Real-time signal 10
    SIGRT10,
    /// Real-time signal 11
    SIGRT11,
    /// Real-time signal 12
    SIGRT12,
    /// Real-time signal 13
    SIGRT13,
    /// Real-time signal 14
    SIGRT14,
    /// Real-time signal 15
    SIGRT15,
    /// Real-time signal 16
    SIGRT16,
    /// Real-time signal 17
    SIGRT17,
    /// Real-time signal 18
    SIGRT18,
    /// Real-time signal 19
    SIGRT19,
    /// Real-time signal 20
    SIGRT20,
    /// Real-time signal 21
    SIGRT21,
    /// Real-time signal 22
    SIGRT22,
    /// Real-time signal 23
    SIGRT23,
    /// Real-time signal 24
    SIGRT24,
    /// Real-time signal 25
    SIGRT25,
    /// Real-time signal 26
    SIGRT26,
    /// Real-time signal 27
    SIGRT27,
    /// Real-time signal 28
    SIGRT28,
    /// Real-time signal 29
    SIGRT29,
    /// Real-time signal 30
    SIGRT30,
    /// Real-time signal 31
    SIGRT31,
    /// Real-time signal 32 (maximum)
    SIGRT32,
}

impl Signo {
    /// The number of this signal.
    pub open spec fn num(self) -> u8 {
        match self {
            Signo::SIGHUP => 1u8,
            Signo::SIGINT => 2u8,
            Signo::SIGQUIT => 3u8,
            Signo::SIGILL => 4u8,
            Signo::SIGTRAP => 5u8,
            Signo::SIGABRT => 6u8,
            Signo::SIGBUS => 7u8,
            Signo::SIGFPE => 8u8,
            Signo::SIGKILL => 9u8,
            Signo::SIGUSR1 => 10u8,
            Signo::SIGSEGV => 11u8,
            Signo::SIGUSR2 => 12u8,
            Signo::SIGPIPE => 13u8,
            Signo::SIGALRM => 14u8,
            Signo::SIGTERM => 15u8,
            Signo::SIGSTKFLT => 16u8,
            Signo::SIGCHLD => 17u8,
            Signo::SIGCONT => 18u8,
            Signo::SIGSTOP => 19u8,
            Signo::SIGTSTP => 20u8,
            Signo::SIGTTIN => 21u8,
            Signo::SIGTTOU => 22u8,
            Signo::SIGURG => 23u8,
            Signo::SIGXCPU => 24u8,
            Signo::SIGXFSZ => 25u8,
            Signo::SIGVTALRM => 26u8,
            Signo::SIGPROF => 27u8,
            Signo::SIGWINCH => 28u8,
            Signo::SIGIO => 29u8,
            Signo::SIGPWR => 30u8,
            Signo::SIGSYS => 31u8,
            Signo::SIGRTMIN => 32u8,
            Signo::SIGRT1 => 33u8,
            Signo::SIGRT2 => 34u8,
            Signo::SIGRT3 => 35u8,
            Signo::SIGRT4 => 36u8,
            Signo::SIGRT5 => 37u8,
            Signo::SIGRT6 => 38u8,
            Signo::SIGRT7 => 39u8,
            Signo::SIGRT8 => 40u8,
            Signo::SIGRT9 => 41u8,
            Signo::SIGRT10 => 42u8,
            Signo::SIGRT11 => 43u8,
            Signo::SIGRT12 => 44u8,
            Signo::SIGRT13 => 45u8,
            Signo::SIGRT14 => 46u8,
            Signo::SIGRT15 => 47u8,
            Signo::SIGRT16 => 48u8,
            Signo::SIGRT17 => 49u8,
            Signo::SIGRT18 => 50u8,
            Signo::SIGRT19 => 51u8,
            Signo::SIGRT20 => 52u8,
            Signo::SIGRT21 => 53u8,
            Signo::SIGRT22 => 54u8,
            Signo::SIGRT23 => 55u8,
            Signo::SIGRT24 => 56u8,
            Signo::SIGRT25 => 57u8,
            Signo::SIGRT26 => 58u8,
            Signo::SIGRT27 => 59u8,
            Signo::SIGRT28 => 60u8,
            Signo::SIGRT29 => 61u8,
            Signo::SIGRT30 => 62u8,
            Signo::SIGRT31 => 63u8,
            Signo::SIGRT32 => 64u8,
        }
    }

    /// The number of this signal.
    pub fn number(&self) -> (r: u8)
        ensures
            r == self.num(),
    {
        match self {
            Signo::SIGHUP => 1u8,
            Signo::SIGINT => 2u8,
            Signo::SIGQUIT => 3u8,
            Signo::SIGILL => 4u8,
            Signo::SIGTRAP => 5u8,
            Signo::SIGABRT => 6u8,
            Signo::SIGBUS => 7u8,
            Signo::SIGFPE => 8u8,
            Signo::SIGKILL => 9u8,
            Signo::SIGUSR1 => 10u8,
            Signo::SIGSEGV => 11u8,
            Signo::SIGUSR2 => 12u8,
            Signo::SIGPIPE => 13u8,
            Signo::SIGALRM => 14u8,
            Signo::SIGTERM => 15u8,
            Signo::SIGSTKFLT => 16u8,
            Signo::SIGCHLD => 17u8,
            Signo::SIGCONT => 18u8,
            Signo::SIGSTOP => 19u8,
            Signo::SIGTSTP => 20u8,
            Signo::SIGTTIN => 21u8,
            Signo::SIGTTOU => 22u8,
            Signo::SIGURG => 23u8,
            Signo::SIGXCPU => 24u8,
            Signo::SIGXFSZ => 25u8,
            Signo::SIGVTALRM => 26u8,
            Signo::SIGPROF => 27u8,
            Signo::SIGWINCH => 28u8,
            Signo::SIGIO => 29u8,
            Signo::SIGPWR => 30u8,
            Signo::SIGSYS => 31u8,
            Signo::SIGRTMIN => 32u8,
            Signo::SIGRT1 => 33u8,
            Signo::SIGRT2 => 34u8,
            Signo::SIGRT3 => 35u8,
            Signo::SIGRT4 => 36u8,
            Signo::SIGRT5 => 37u8,
            Signo::SIGRT6 => 38u8,
            Signo::SIGRT7 => 39u8,
            Signo::SIGRT8 => 40u8,
            Signo::SIGRT9 => 41u8,
            Signo::SIGRT10 => 42u8,
            Signo::SIGRT11 => 43u8,
            Signo::SIGRT12 => 44u8,
            Signo::SIGRT13 => 45u8,
            Signo::SIGRT14 => 46u8,
            Signo::SIGRT15 => 47u8,
            Signo::SIGRT16 => 48u8,
            Signo::SIGRT17 => 49u8,
            Signo::SIGRT18 => 50u8,
            Signo::SIGRT19 => 51u8,
            Signo::SIGRT20 => 52u8,
            Signo::SIGRT21 => 53u8,
            Signo::SIGRT22 => 54u8,
            Signo::SIGRT23 => 55u8,
            Signo::SIGRT24 => 56u8,
            Signo::SIGRT25 => 57u8,
            Signo::SIGRT26 => 58u8,
            Signo::SIGRT27 => 59u8,
            Signo::SIGRT28 => 60u8,
            Signo::SIGRT29 => 61u8,
            Signo::SIGRT30 => 62u8,
            Signo::SIGRT31 => 63u8,
            Signo::SIGRT32 => 64u8,
        }
    }

    /// The signal with number `n`, if `n` is one.
    pub fn from_repr(n: u8) -> (r: Option<Signo>)
        ensures
            match r {
                Some(s) => 1 <= n <= 64 && s.num() == n,
                None => !(1 <= n <= 64),
            },
    {
        match n {
            1u8 => Some(Signo::SIGHUP),
            2u8 => Some(Signo::SIGINT),
            3u8 => Some(Signo::SIGQUIT),
            4u8 => Some(Signo::SIGILL),
            5u8 => Some(Signo::SIGTRAP),
            6u8 => Some(Signo::SIGABRT),
            7u8 => Some(Signo::SIGBUS),
            8u8 => Some(Signo::SIGFPE),
            9u8 => Some(Signo::SIGKILL),
            10u8 => Some(Signo::SIGUSR1),
            11u8 => Some(Signo::SIGSEGV),
            12u8 => Some(Signo::SIGUSR2),
            13u8 => Some(Signo::SIGPIPE),
            14u8 => Some(Signo::SIGALRM),
            15u8 => Some(Signo::SIGTERM),
            16u8 => Some(Signo::SIGSTKFLT),
            17u8 => Some(Signo::SIGCHLD),
            18u8 => Some(Signo::SIGCONT),
            19u8 => Some(Signo::SIGSTOP),
            20u8 => Some(Signo::SIGTSTP),
            21u8 => Some(Signo::SIGTTIN),
            22u8 => Some(Signo::SIGTTOU),
            23u8 => Some(Signo::SIGURG),
            24u8 => Some(Signo::SIGXCPU),
            25u8 => Some(Signo::SIGXFSZ),
            26u8 => Some(Signo::SIGVTALRM),
            27u8 => Some(Signo::SIGPROF),
            28u8 => Some(Signo::SIGWINCH),
            29u8 => Some(Signo::SIGIO),
            30u8 => Some(Signo::SIGPWR),
            31u8 => Some(Signo::SIGSYS),
            32u8 => Some(Signo::SIGRTMIN),
            33u8 => Some(Signo::SIGRT1),
            34u8 => Some(Signo::SIGRT2),
            35u8 => Some(Signo::SIGRT3),
            36u8 => Some(Signo::SIGRT4),
            37u8 => Some(Signo::SIGRT5),
            38u8 => Some(Signo::SIGRT6),
            39u8 => Some(Signo::SIGRT7),
            40u8 => Some(Signo::SIGRT8),
            41u8 => Some(Signo::SIGRT9),
            42u8 => Some(Signo::SIGRT10),
            43u8 => Some(Signo::SIGRT11),
            44u8 => Some(Signo::SIGRT12),
            45u8 => Some(Signo::SIGRT13),
            46u8 => Some(Signo::SIGRT14),
            47u8 => Some(Signo::SIGRT15),
            48u8 => Some(Signo::SIGRT16),
            49u8 => Some(Signo::SIGRT17),
            50u8 => Some(Signo::SIGRT18),
            51u8 => Some(Signo::SIGRT19),
            52u8 => Some(Signo::SIGRT20),
            53u8 => Some(Signo::SIGRT21),
            54u8 => Some(Signo::SIGRT22),
            55u8 => Some(Signo::SIGRT23),
            56u8 => Some(Signo::SIGRT24),
            57u8 => Some(Signo::SIGRT25),
            58u8 => Some(Signo::SIGRT26),
            59u8 => Some(Signo::SIGRT27),
            60u8 => Some(Signo::SIGRT28),
            61u8 => Some(Signo::SIGRT29),
            62u8 => Some(Signo::SIGRT30),
            63u8 => Some(Signo::SIGRT31),
            64u8 => Some(Signo::SIGRT32),
            _ => None,
        }
    }

    /// What happens to a process by default when this signal arrives.
    pub open spec fn default_action_spec(self) -> DefaultSignalAction {
        match self {
            Signo::SIGHUP => DefaultSignalAction::Terminate,
            Signo::SIGINT => DefaultSignalAction::Terminate,
            Signo::SIGQUIT => DefaultSignalAction::CoreDump,
            Signo::SIGILL => DefaultSignalAction::CoreDump,
            Signo::SIGTRAP => DefaultSignalAction::CoreDump,
            Signo::SIGABRT => DefaultSignalAction::CoreDump,
            Signo::SIGBUS => DefaultSignalAction::CoreDump,
            Signo::SIGFPE => DefaultSignalAction::CoreDump,
            Signo::SIGKILL => DefaultSignalAction::Terminate,
            Signo::SIGUSR1 => DefaultSignalAction::Terminate,
            Signo::SIGSEGV => DefaultSignalAction::CoreDump,
            Signo::SIGUSR2 => DefaultSignalAction::Terminate,
            Signo::SIGPIPE => DefaultSignalAction::Terminate,
            Signo::SIGALRM => DefaultSignalAction::Terminate,
            Signo::SIGTERM => DefaultSignalAction::Terminate,
            Signo::SIGSTKFLT => DefaultSignalAction::Terminate,
            Signo::SIGCHLD => DefaultSignalAction::Ignore,
            Signo::SIGCONT => DefaultSignalAction::Continue,
            Signo::SIGSTOP => DefaultSignalAction::Stop,
            Signo::SIGTSTP => DefaultSignalAction::Stop,
            Signo::SIGTTIN => DefaultSignalAction::Stop,
            Signo::SIGTTOU => DefaultSignalAction::Stop,
            Signo::SIGURG => DefaultSignalAction::Ignore,
            Signo::SIGXCPU => DefaultSignalAction::CoreDump,
            Signo::SIGXFSZ => DefaultSignalAction::CoreDump,
            Signo::SIGVTALRM => DefaultSignalAction::Terminate,
            Signo::SIGPROF => DefaultSignalAction::Terminate,
            Signo::SIGWINCH => DefaultSignalAction::Ignore,
            Signo::SIGIO => DefaultSignalAction::Terminate,
            Signo::SIGPWR => DefaultSignalAction::Terminate,
            Signo::SIGSYS => DefaultSignalAction::CoreDump,
            Signo::SIGRTMIN => DefaultSignalAction::Ignore,
            Signo::SIGRT1 => DefaultSignalAction::Ignore,
            Signo::SIGRT2 => DefaultSignalAction::Ignore,
            Signo::SIGRT3 => DefaultSignalAction::Ignore,
            Signo::SIGRT4 => DefaultSignalAction::Ignore,
            Signo::SIGRT5 => DefaultSignalAction::Ignore,
            Signo::SIGRT6 => DefaultSignalAction::Ignore,
            Signo::SIGRT7 => DefaultSignalAction::Ignore,
            Signo::SIGRT8 => DefaultSignalAction::Ignore,
            Signo::SIGRT9 => DefaultSignalAction::Ignore,
            Signo::SIGRT10 => DefaultSignalAction::Ignore,
            Signo::SIGRT11 => DefaultSignalAction::Ignore,
            Signo::SIGRT12 => DefaultSignalAction::Ignore,
            Signo::SIGRT13 => DefaultSignalAction::Ignore,
            Signo::SIGRT14 => DefaultSignalAction::Ignore,
            Signo::SIGRT15 => DefaultSignalAction::Ignore,
            Signo::SIGRT16 => DefaultSignalAction::Ignore,
            Signo::SIGRT17 => DefaultSignalAction::Ignore,
            Signo::SIGRT18 => DefaultSignalAction::Ignore,
            Signo::SIGRT19 => DefaultSignalAction::Ignore,
            Signo::SIGRT20 => DefaultSignalAction::Ignore,
            Signo::SIGRT21 => DefaultSignalAction::Ignore,
            Signo::SIGRT22 => DefaultSignalAction::Ignore,
            Signo::SIGRT23 => DefaultSignalAction::Ignore,
            Signo::SIGRT24 => DefaultSignalAction::Ignore,
            Signo::SIGRT25 => DefaultSignalAction::Ignore,
            Signo::SIGRT26 => DefaultSignalAction::Ignore,
            Signo::SIGRT27 => DefaultSignalAction::Ignore,
            Signo::SIGRT28 => DefaultSignalAction::Ignore,
            Signo::SIGRT29 => DefaultSignalAction::Ignore,
            Signo::SIGRT30 => DefaultSignalAction::Ignore,
            Signo::SIGRT31 => DefaultSignalAction::Ignore,
            Signo::SIGRT32 => DefaultSignalAction::Ignore,
        }
    }

    /// What happens to a process by default when this signal arrives.
    pub fn default_action(&self) -> (r: DefaultSignalAction)
        ensures
            r == self.default_action_spec(),
    {
        match self {
            Signo::SIGHUP => DefaultSignalAction::Terminate,
            Signo::SIGINT => DefaultSignalAction::Terminate,
            Signo::SIGQUIT => DefaultSignalAction::CoreDump,
            Signo::SIGILL => DefaultSignalAction::CoreDump,
            Signo::SIGTRAP => DefaultSignalAction::CoreDump,
            Signo::SIGABRT => DefaultSignalAction::CoreDump,
            Signo::SIGBUS => DefaultSignalAction::CoreDump,
            Signo::SIGFPE => DefaultSignalAction::CoreDump,
            Signo::SIGKILL => DefaultSignalAction::Terminate,
            Signo::SIGUSR1 => DefaultSignalAction::Terminate,
            Signo::SIGSEGV => DefaultSignalAction::CoreDump,
            Signo::SIGUSR2 => DefaultSignalAction::Terminate,
            Signo::SIGPIPE => DefaultSignalAction::Terminate,
            Signo::SIGALRM => DefaultSignalAction::Terminate,
            Signo::SIGTERM => DefaultSignalAction::Terminate,
            Signo::SIGSTKFLT => DefaultSignalAction::Terminate,
            Signo::SIGCHLD => DefaultSignalAction::Ignore,
            Signo::SIGCONT => DefaultSignalAction::Continue,
            Signo::SIGSTOP => DefaultSignalAction::Stop,
            Signo::SIGTSTP => DefaultSignalAction::Stop,
            Signo::SIGTTIN => DefaultSignalAction::Stop,
            Signo::SIGTTOU => DefaultSignalAction::Stop,
            Signo::SIGURG => DefaultSignalAction::Ignore,
            Signo::SIGXCPU => DefaultSignalAction::CoreDump,
            Signo::SIGXFSZ => DefaultSignalAction::CoreDump,
            Signo::SIGVTALRM => DefaultSignalAction::Terminate,
            Signo::SIGPROF => DefaultSignalAction::Terminate,
            Signo::SIGWINCH => DefaultSignalAction::Ignore,
            Signo::SIGIO => DefaultSignalAction::Terminate,
            Signo::SIGPWR => DefaultSignalAction::Terminate,
            Signo::SIGSYS => DefaultSignalAction::CoreDump,
            Signo::SIGRTMIN => DefaultSignalAction::Ignore,
            Signo::SIGRT1 => DefaultSignalAction::Ignore,
            Signo::SIGRT2 => DefaultSignalAction::Ignore,
            Signo::SIGRT3 => DefaultSignalAction::Ignore,
            Signo::SIGRT4 => DefaultSignalAction::Ignore,
            Signo::SIGRT5 => DefaultSignalAction::Ignore,
            Signo::SIGRT6 => DefaultSignalAction::Ignore,
            Signo::SIGRT7 => DefaultSignalAction::Ignore,
            Signo::SIGRT8 => DefaultSignalAction::Ignore,
            Signo::SIGRT9 => DefaultSignalAction::Ignore,
            Signo::SIGRT10 => DefaultSignalAction::Ignore,
            Signo::SIGRT11 => DefaultSignalAction::Ignore,
            Signo::SIGRT12 => DefaultSignalAction::Ignore,
            Signo::SIGRT13 => DefaultSignalAction::Ignore,
            Signo::SIGRT14 => DefaultSignalAction::Ignore,
            Signo::SIGRT15 => DefaultSignalAction::Ignore,
            Signo::SIGRT16 => DefaultSignalAction::Ignore,
            Signo::SIGRT17 => DefaultSignalAction::Ignore,
            Signo::SIGRT18 => DefaultSignalAction::Ignore,
            Signo::SIGRT19 => DefaultSignalAction::Ignore,
            Signo::SIGRT20 => DefaultSignalAction::Ignore,
            Signo::SIGRT21 => DefaultSignalAction::Ignore,
            Signo::SIGRT22 => DefaultSignalAction::Ignore,
            Signo::SIGRT23 => DefaultSignalAction::Ignore,
            Signo::SIGRT24 => DefaultSignalAction::Ignore,
            Signo::SIGRT25 => DefaultSignalAction::Ignore,
            Signo::SIGRT26 => DefaultSignalAction::Ignore,
            Signo::SIGRT27 => DefaultSignalAction::Ignore,
            Signo::SIGRT28 => DefaultSignalAction::Ignore,
            Signo::SIGRT29 => DefaultSignalAction::Ignore,
            Signo::SIGRT30 => DefaultSignalAction::Ignore,
            Signo::SIGRT31 => DefaultSignalAction::Ignore,
            Signo::SIGRT32 => DefaultSignalAction::Ignore,
        }
    }
}

/// The default action of each signal is the one POSIX gives its number: SIGHUP, SIGINT,
/// SIGKILL, SIGUSR1, SIGUSR2, SIGPIPE, SIGALRM, SIGTERM, SIGSTKFLT, SIGVTALRM, SIGPROF,
/// SIGIO and SIGPWR end the process; SIGQUIT, SIGILL, SIGTRAP, SIGABRT, SIGBUS, SIGFPE,
/// SIGSEGV, SIGXCPU, SIGXFSZ and SIGSYS end it with a core dump; SIGSTOP, SIGTSTP, SIGTTIN
/// and SIGTTOU stop it; SIGCONT continues it; SIGCHLD, SIGURG, SIGWINCH and every
/// real-time signal are ignored.
pub proof fn lemma_default_actions_by_number(s: Signo)
    ensures
        (s.default_action_spec() == DefaultSignalAction::Terminate) <==> (s.num() == 1 || s.num() == 2
            || s.num() == 9 || s.num() == 10 || s.num() == 12 || s.num() == 13 || s.num() == 14
            || s.num() == 15 || s.num() == 16 || s.num() == 26 || s.num() == 27 || s.num() == 29
            || s.num() == 30),
        (s.default_action_spec() == DefaultSignalAction::CoreDump) <==> (s.num() == 3 || s.num() == 4
            || s.num() == 5 || s.num() == 6 || s.num() == 7 || s.num() == 8 || s.num() == 11
            || s.num() == 24 || s.num() == 25 || s.num() == 31),
        (s.default_action_spec() == DefaultSignalAction::Stop) <==> (19 <= s.num() <= 22),
        (s.default_action_spec() == DefaultSignalAction::Continue) <==> (s.num() == 18),
        (s.default_action_spec() == DefaultSignalAction::Ignore) <==> (s.num() == 17 || s.num() == 23
            || s.num() == 28 || s.num() >= 32),
{
}

impl Signo {
    /// Whether this is a real-time signal (number 32 or above). Real-time
    /// signals queue; standard signals coalesce.
    pub fn is_realtime(&self) -> (r: bool)
        ensures
            r == (self.num() >= 32),
    {
        self.number() >= 32
    }
}

/// Whether signal number `n` is in the set with bits `bits`.
pub open spec fn bit_set(bits: u64, n: int) -> bool {
    1 <= n <= 64 && (bits >> ((n - 1) as u64)) & 1u64 == 1u64
}

/// What setting, clearing and masking one bit does to every bit.
proof fn lemma_bit_ops(x: u64, m: u64, k: u64)
    by (bit_vector)
    requires
        k < 64,
    ensures
        ((x | (1u64 << k)) >> k) & 1u64 == 1u64,
        ((x & !(1u64 << k)) >> k) & 1u64 == 0u64,
        forall|j: u64| j < 64 && j != k ==> #[trigger] (((x | (1u64 << k)) >> j) & 1u64) == ((x >> j) & 1u64),
        forall|j: u64| j < 64 && j != k ==> #[trigger] (((x & !(1u64 << k)) >> j) & 1u64) == ((x >> j) & 1u64),
        (x & (1u64 << k) != 0) == ((x >> k) & 1u64 == 1u64),
        forall|j: u64| j < 64 ==> (#[trigger] (((x & m) >> j) & 1u64) == 1u64) == (((x >> j) & 1u64) == 1u64 && ((m >> j) & 1u64) == 1u64),
        forall|j: u64| j < 64 ==> (#[trigger] ((x >> j) & 1u64) == 1u64 || (x >> j) & 1u64 == 0u64),
        x == 0 ==> forall|j: u64| j < 64 ==> #[trigger] ((x >> j) & 1u64) == 0u64,
{
}

/// A set of signals, one bit per signal number (bit `n - 1` for signal `n`).
#[derive(Debug, Clone, Copy, PartialEq, Eq, Structural)]
pub struct SignalSet(pub u64);

impl SignalSet {
    /// Whether the set holds signal number `n`.
    pub open spec fn contains(self, n: int) -> bool {
        bit_set(self.0, n)
    }

    /// The empty set.
    pub fn new() -> (r: Self)
        ensures
            r == SignalSet(0),
            forall|n: int| !r.contains(n),
    {
        proof {
            lemma_bit_ops(0, 0, 0);
        }
        SignalSet(0)
    }

    /// The bit of signal `signal`.
    fn signo_bit(signal: Signo) -> (r: u64)
        ensures
            r == 1u64 << ((signal.num() - 1) as u64),
    {
        let k: u64 = (signal.number() - 1) as u64;
        1u64 << k
    }

    /// Adds a signal to the set; `true` if it was not there before.
    pub fn add(&mut self, signal: Signo) -> (r: bool)
        ensures
            r == !old(self).contains(signal.num() as int),
            final(self).contains(signal.num() as int),
            forall|n: int| n != signal.num() ==> final(self).contains(n) == old(self).contains(n),
    {
        let bit = Self::signo_bit(signal);
        let k: u64 = (signal.number() - 1) as u64;
        proof {
            lemma_bit_ops(self.0, 0, k);
        }
        if self.0 & bit != 0 {
            return false;
        }
        self.0 = self.0 | bit;
        proof {
            assert forall|n: int| n != signal.num() implies #[trigger] bit_set(self.0, n) == bit_set(old(self).0, n) by {
                if 1 <= n <= 64 {
                    let j = (n - 1) as u64;
                    assert(j != k);
                }
            }
        }
        true
    }

    /// Removes a signal from the set; `true` if it was there before.
    pub fn remove(&mut self, signal: Signo) -> (r: bool)
        ensures
            r == old(self).contains(signal.num() as int),
            !final(self).contains(signal.num() as int),
            forall|n: int| n != signal.num() ==> final(self).contains(n) == old(self).contains(n),
    {
        let bit = Self::signo_bit(signal);
        let k: u64 = (signal.number() - 1) as u64;
        proof {
            lemma_bit_ops(self.0, 0, k);
        }
        if self.0 & bit == 0 {
            return false;
        }
        self.0 = self.0 & !bit;
        proof {
            assert forall|n: int| n != signal.num() implies #[trigger] bit_set(self.0, n) == bit_set(old(self).0, n) by {
                if 1 <= n <= 64 {
                    let j = (n - 1) as u64;
                    assert(j != k);
                }
            }
        }
        true
    }

    /// Whether the set holds `signal`.
    pub fn has(&self, signal: Signo) -> (r: bool)
        ensures
            r == self.contains(signal.num() as int),
    {
        let bit = Self::signo_bit(signal);
        let k: u64 = (signal.number() - 1) as u64;
        proof {
            lemma_bit_ops(self.0, 0, k);
        }
        (self.0 & bit) != 0
    }

    /// Whether the set holds no signal.
    pub fn is_empty(&self) -> (r: bool)
        ensures
            r == (forall|n: int| !self.contains(n)),
    {
        proof {
            lemma_bit_ops(self.0, 0, 0);
            vstd::std_specs::bits::axiom_u64_trailing_zeros(self.0);
            if self.0 != 0 {
                let j = vstd::std_specs::bits::u64_trailing_zeros(self.0) as u64;
                assert(((self.0 >> j) & 1u64) == 1u64);
                assert(self.contains(j + 1));
            } else {
                assert forall|n: int| !self.contains(n) by {
                    if 1 <= n <= 64 {
                        let j = (n - 1) as u64;
                        assert(((self.0 >> j) & 1u64) == 0u64);
                    }
                }
            }
        }
        self.0 == 0
    }

    /// Removes and gives the lowest-numbered signal that is both in this set
    /// and in `mask`; nothing, and no change, when there is none.
    pub fn dequeue(&mut self, mask: &SignalSet) -> (r: Option<Signo>)
        ensures
            match r {
                Some(s) => {
                    &&& old(self).contains(s.num() as int)
                    &&& mask.contains(s.num() as int)
                    &&& forall|n: int| n < s.num() ==> !(#[trigger] old(self).contains(n) && mask.contains(n))
                    &&& !final(self).contains(s.num() as int)
                    &&& forall|n: int| n != s.num() ==> final(self).contains(n) == old(self).contains(n)
                },
                None => {
                    &&& forall|n: int| !(#[trigger] old(self).contains(n) && mask.contains(n))
                    &&& *final(self) == *old(self)
                },
            },
    {
        let bits = self.0 & mask.0;
        proof {
            lemma_bit_ops(self.0, mask.0, 0);
            lemma_bit_ops(bits, 0, 0);
            vstd::std_specs::bits::axiom_u64_trailing_zeros(bits);
        }
        if bits == 0 {
            proof {
                assert forall|n: int| !(#[trigger] old(self).contains(n) && mask.contains(n)) by {
                    if 1 <= n <= 64 {
                        let j = (n - 1) as u64;
                        assert(((bits >> j) & 1u64) == 0u64);
                        assert((((self.0 & mask.0) >> j) & 1u64) == 1u64 <==> (((self.0 >> j) & 1u64) == 1u64 && ((mask.0 >> j) & 1u64) == 1u64));
                    }
                }
            }
            return None;
        }
        let low = bits.trailing_zeros();
        let k: u64 = low as u64;
        proof {
            lemma_bit_ops(self.0, mask.0, k);
            assert(((bits >> k) & 1u64) == 1u64);
            assert forall|n: int| n < k + 1 implies !(#[trigger] old(self).contains(n) && mask.contains(n)) by {
                if 1 <= n {
                    let j = (n - 1) as u64;
                    assert(((bits >> j) & 1u64) == 0u64);
                    assert((((self.0 & mask.0) >> j) & 1u64) == 1u64 <==> (((self.0 >> j) & 1u64) == 1u64 && ((mask.0 >> j) & 1u64) == 1u64));
                }
            }
        }
        self.0 = self.0 & !(1u64 << k);
        proof {
            assert forall|n: int| n != k + 1 implies #[trigger] bit_set(self.0, n) == bit_set(old(self).0, n) by {
                if 1 <= n <= 64 {
                    let j = (n - 1) as u64;
                    assert(j != k);
                }
            }
        }
        let r = Signo::from_repr((low + 1) as u8);
        r
    }
}

/// The flag of a disabled signal stack.
pub const SS_DISABLE: u32 = 2;

/// An alternate stack for signal handlers.
#[derive(Debug, Clone, Copy, PartialEq, Eq, Structural)]
pub struct SignalStack {
    /// Base address of the stack.
    pub sp: usize,
    /// `SS_DISABLE` or 0.
    pub flags: u32,
    /// Size of the stack in bytes.
    pub size: usize,
}

impl Default for SignalSet {
    /// The empty set.
    fn default() -> (r: Self)
        ensures
            r == SignalSet(0),
            forall|n: int| !r.contains(n),
    {
        SignalSet::new()
    }
}

impl Default for SignalStack {
    /// No alternate stack: disabled, empty.
    fn default() -> (r: Self)
        ensures
            r == (SignalStack { sp: 0, flags: SS_DISABLE, size: 0 }),
    {
        SignalStack { sp: 0, flags: SS_DISABLE, size: 0 }
    }
}

impl SignalStack {
    /// Whether no alternate stack is configured.
    pub fn disabled(&self) -> (r: bool)
        ensures
            r == (self.flags == SS_DISABLE),
    {
        self.flags == SS_DISABLE
    }
}

/// What a signal carries: its number and the reason it was sent.
#[derive(Debug, Clone, Copy, PartialEq, Eq, Structural)]
pub struct SignalInfo {
    pub signo: Signo,
    pub code: i32,
}

impl SignalInfo {
    /// The information of a signal with the given number and code.
    pub fn new(signo: Signo, code: i32) -> (r: Self)
        ensures
            r.signo == signo,
            r.code == code,
    {
        SignalInfo { signo, code }
    }

    /// The signal number.
    pub fn signo(&self) -> (r: Signo)
        ensures
            r == self.signo,
    {
        self.signo
    }

    /// Sets the signal number.
    pub fn set_signo(&mut self, signo: Signo)
        ensures
            final(self).signo == signo,
            final(self).code == old(self).code,
    {
        self.signo = signo;
    }

    /// The reason the signal was sent.
    pub fn code(&self) -> (r: i32)
        ensures
            r == self.code,
    {
        self.code
    }

    /// Sets the reason the signal was sent.
    pub fn set_code(&mut self, code: i32)
        ensures
            final(self).code == code,
            final(self).signo == old(self).signo,
    {
        self.code = code;
    }
}

/// Whether `queues` holds a pending instance of `n` that `mask` lets through.
pub open spec fn available(queues: Seq<Seq<SignalInfo>>, mask: SignalSet, n: int) -> bool {
    1 <= n <= 64 && queues[n].len() > 0 && mask.contains(n)
}

/// The lowest signal number at or above `n` with an instance that `mask`
/// lets through, or 65.
pub open spec fn first_available(queues: Seq<Seq<SignalInfo>>, mask: SignalSet, n: int) -> int
    decreases 65 - n,
{
    if n >= 65 || n < 1 {
        65
    } else if available(queues, mask, n) {
        n
    } else {
        first_available(queues, mask, n + 1)
    }
}

/// `first_available` finds the lowest available number at or above `n`.
pub proof fn lemma_first_available(queues: Seq<Seq<SignalInfo>>, mask: SignalSet, n: int)
    requires
        1 <= n <= 65,
    ensures
        ({
            let f = first_available(queues, mask, n);
            &&& n <= f <= 65
            &&& f <= 64 ==> available(queues, mask, f)
            &&& forall|k: int| n <= k < f ==> !available(queues, mask, k)
        }),
    decreases 65 - n,
{
    if n < 65 && !available(queues, mask, n) {
        lemma_first_available(queues, mask, n + 1);
    }
}

/// Delivering `sig`: a real-time signal joins the end of its queue; a
/// standard signal is kept only when none of its number is pending. The flag
/// says whether it was kept.
pub open spec fn put_spec(queues: Seq<Seq<SignalInfo>>, sig: SignalInfo) -> (Seq<Seq<SignalInfo>>, bool) {
    let n = sig.signo.num() as int;
    if n >= 32 {
        (queues.update(n, queues[n].push(sig)), true)
    } else if queues[n].len() > 0 {
        (queues, false)
    } else {
        (queues.update(n, seq![sig]), true)
    }
}

/// Taking the first pending instance of the lowest signal number that `mask`
/// lets through, if any.
pub open spec fn dequeue_spec(queues: Seq<Seq<SignalInfo>>, mask: SignalSet) -> (
    Seq<Seq<SignalInfo>>,
    Option<SignalInfo>,
) {
    let f = first_available(queues, mask, 1);
    if f > 64 {
        (queues, None)
    } else {
        (queues.update(f, queues[f].drop_first()), Some(queues[f][0]))
    }
}

/// Signals that have been delivered and not yet handled.
pub struct PendingSignals {
    /// The numbers with at least one pending instance.
    pub set: SignalSet,
    info_std: Vec<Option<SignalInfo>>,
    info_rt: Vec<std::collections::VecDeque<SignalInfo>>,
}

impl PendingSignals {
    /// The pending instances of signal number `n`, oldest first.
    pub closed spec fn queue(&self, n: int) -> Seq<SignalInfo> {
        if 1 <= n < 32 {
            match self.info_std@[n] {
                Some(i) => seq![i],
                None => Seq::empty(),
            }
        } else if 32 <= n <= 64 {
            self.info_rt@[n - 32]@
        } else {
            Seq::empty()
        }
    }

    /// The pending instances of every signal number.
    pub open spec fn queues(&self) -> Seq<Seq<SignalInfo>> {
        Seq::new(65, |n: int| self.queue(n))
    }

    /// The `set` field: the numbers marked pending.
    pub closed spec fn pending_set(&self) -> SignalSet {
        self.set
    }

    /// In a well-formed value the pending set holds exactly the numbers whose queue is
    /// not empty.
    pub proof fn lemma_set_matches_queues(&self)
        requires
            self.wf(),
        ensures
            forall|n: int| 1 <= n <= 64 ==> (#[trigger] self.pending_set().contains(n) <==> self.queues()[n].len() > 0),
    {
        assert forall|n: int| 1 <= n <= 64 implies (#[trigger] self.set.contains(n) <==> self.queues()[n].len() > 0) by {
            assert(self.queues()[n] == self.queue(n));
        }
    }

    /// The set holds exactly the numbers with pending instances, and each
    /// instance is of its own number.
    pub closed spec fn wf(&self) -> bool {
        &&& self.info_std@.len() == 32
        &&& self.info_rt@.len() == 33
        &&& forall|n: int| 1 <= n <= 64 ==> (#[trigger] self.set.contains(n) <==> self.queue(n).len() > 0)
        &&& forall|n: int, k: int| 1 <= n <= 64 && 0 <= k < self.queue(n).len()
            ==> (#[trigger] self.queue(n)[k]).signo.num() == n
    }

    /// Nothing pending.
    pub fn new() -> (r: Self)
        ensures
            r.wf(),
            forall|n: int| 1 <= n <= 64 ==> (#[trigger] r.pending_set().contains(n) <==> r.queues()[n].len() > 0),
            forall|n: int| 0 <= n <= 64 ==> #[trigger] r.queues()[n].len() == 0,
    {
        let mut info_std: Vec<Option<SignalInfo>> = Vec::new();
        let mut i: usize = 0;
        while i < 32
            invariant
                i <= 32,
                info_std@.len() == i,
                forall|k: int| 0 <= k < i ==> info_std@[k] is None,
            decreases 32 - i,
        {
            info_std.push(None);
            i = i + 1;
        }
        let mut info_rt: Vec<std::collections::VecDeque<SignalInfo>> = Vec::new();
        let mut j: usize = 0;
        while j < 33
            invariant
                j <= 33,
                info_rt@.len() == j,
                forall|k: int| 0 <= k < j ==> info_rt@[k]@.len() == 0,
            decreases 33 - j,
        {
            info_rt.push(std::collections::VecDeque::new());
            j = j + 1;
        }
        let r = PendingSignals { set: SignalSet::new(), info_std, info_rt };
        assert forall|n: int| 0 <= n <= 64 implies #[trigger] r.queues()[n].len() == 0 by {
            assert(r.queues()[n] == r.queue(n));
        }
        proof {
            r.lemma_set_matches_queues();
        }
        r
    }

    /// Delivers a signal (see `put_spec`); `false` when a standard signal of
    /// the same number was already pending and this one was dropped.
    pub fn put_signal(&mut self, sig: SignalInfo) -> (r: bool)
        requires
            old(self).wf(),
        ensures
            final(self).wf(),
            forall|n: int| 1 <= n <= 64 ==> (#[trigger] final(self).pending_set().contains(n) <==> final(self).queues()[n].len()
                > 0),
            (final(self).queues(), r) == put_spec(old(self).queues(), sig),
            final(self).pending_set().contains(sig.signo.num() as int),
    {
        let signo = sig.signo;
        let n = signo.number();
        let ghost q0 = self.queues();
        let added = self.set.add(signo);
        if signo.is_realtime() {
            let idx = (n - 32) as usize;
            self.info_rt[idx].push_back(sig);
            proof {
                assert forall|m: int| 0 <= m <= 64 implies #[trigger] self.queue(m) == put_spec(q0, sig).0[m] by {
                    assert(q0[m] == old(self).queue(m));
                }
                assert(self.queues() =~= put_spec(q0, sig).0);
            }
        } else {
            if !added {
                proof {
                    assert forall|m: int| 1 <= m <= 64 implies (#[trigger] self.set.contains(m) <==> self.queue(m).len() > 0) by {
                        assert(old(self).set.contains(m) <==> old(self).queue(m).len() > 0);
                    }
                    assert forall|m: int, k: int| 1 <= m <= 64 && 0 <= k < self.queue(m).len()
                        implies (#[trigger] self.queue(m)[k]).signo.num() == m by {
                        assert(self.queue(m) == old(self).queue(m));
                    }
                    assert(q0[n as int] == old(self).queue(n as int));
                    assert(self.queues() =~= q0) by {
                        assert forall|m: int| 0 <= m < 65 implies self.queues()[m] == q0[m] by {
                            assert(q0[m] == old(self).queue(m));
                        }
                    }
                }
                proof {
                    self.lemma_set_matches_queues();
                }
                return false;
            }
            self.info_std.set(n as usize, Some(sig));
            proof {
                assert(q0[n as int] == old(self).queue(n as int));
                assert forall|m: int| 0 <= m <= 64 implies #[trigger] self.queue(m) == put_spec(q0, sig).0[m] by {
                    assert(q0[m] == old(self).queue(m));
                }
                assert(self.queues() =~= put_spec(q0, sig).0);
            }
        }
        proof {
            self.lemma_set_matches_queues();
        }
        true
    }

    /// Takes the first pending instance of the lowest-numbered signal that
    /// `mask` lets through (see `dequeue_spec`).
    pub fn dequeue_signal(&mut self, mask: &SignalSet) -> (r: Option<SignalInfo>)
        requires
            old(self).wf(),
        ensures
            final(self).wf(),
            forall|n: int| 1 <= n <= 64 ==> (#[trigger] final(self).pending_set().contains(n) <==> final(self).queues()[n].len()
                > 0),
            (final(self).queues(), r) == dequeue_spec(old(self).queues(), *mask),
    {
        let ghost q0 = self.queues();
        proof {
            lemma_first_available(q0, *mask, 1);
        }
        let picked = self.set.dequeue(mask);
        match picked {
            None => {
                proof {
                    let f = first_available(q0, *mask, 1);
                    if f <= 64 {
                        assert(q0[f] == old(self).queue(f));
                        assert(old(self).set.contains(f));
                    }
                    assert(self.queues() =~= q0);
                }
                proof {
                    self.lemma_set_matches_queues();
                }
                None
            },
            Some(signo) => {
                let n = signo.number();
                proof {
                    let f = first_available(q0, *mask, 1);
                    assert(q0[n as int] == old(self).queue(n as int));
                    assert(available(q0, *mask, n as int));
                    if f < n {
                        assert(q0[f] == old(self).queue(f));
                        assert(old(self).set.contains(f));
                    }
                    assert(f == n);
                }
                if signo.is_realtime() {
                    let idx = (n - 32) as usize;
                    let taken = self.info_rt[idx].pop_front();
                    let more = self.info_rt[idx].len() > 0;
                    if more {
                        self.set.add(signo);
                    }
                    proof {
                        assert forall|m: int| 0 <= m <= 64 implies #[trigger] self.queue(m) == dequeue_spec(q0, *mask).0[m] by {
                            assert(q0[m] == old(self).queue(m));
                        }
                        assert(self.queues() =~= dequeue_spec(q0, *mask).0);
                    }
                    proof {
                        self.lemma_set_matches_queues();
                    }
                    taken
                } else {
                    let taken = self.info_std[n as usize];
                    self.info_std.set(n as usize, None);
                    proof {
                        assert forall|m: int| 0 <= m <= 64 implies #[trigger] self.queue(m) == dequeue_spec(q0, *mask).0[m] by {
                            assert(q0[m] == old(self).queue(m));
                        }
                        assert(self.queues() =~= dequeue_spec(q0, *mask).0);
                    }
                    proof {
                        self.lemma_set_matches_queues();
                    }
                    taken
                }
            },
        }
    }
}

/// Real-time signals are handed out in the order they were delivered: two
/// instances delivered one after the other to a number with nothing pending
/// are dequeued first the one, then the other.
pub proof fn lemma_realtime_fifo(queues: Seq<Seq<SignalInfo>>, a: SignalInfo, b: SignalInfo, mask: SignalSet)
    requires
        queues.len() == 65,
        a.signo == b.signo,
        a.signo.num() >= 32,
        queues[a.signo.num() as int].len() == 0,
        mask.contains(a.signo.num() as int),
        forall|n: int| 1 <= n < a.signo.num() ==> !(#[trigger] mask.contains(n)),
    ensures
        ({
            let q1 = put_spec(put_spec(queues, a).0, b).0;
            let d1 = dequeue_spec(q1, mask);
            let d2 = dequeue_spec(d1.0, mask);
            &&& d1.1 == Some(a)
            &&& d2.1 == Some(b)
            &&& d2.0[a.signo.num() as int].len() == 0
        }),
{
    let n = a.signo.num() as int;
    let q1 = put_spec(put_spec(queues, a).0, b).0;
    assert(q1[n] =~= seq![a, b]);
    lemma_first_available(q1, mask, 1);
    assert(available(q1, mask, n));
    let f1 = first_available(q1, mask, 1);
    assert(f1 == n);
    let d1 = dequeue_spec(q1, mask);
    assert(d1.0[n] =~= seq![b]);
    lemma_first_available(d1.0, mask, 1);
    assert(available(d1.0, mask, n));
    let f2 = first_available(d1.0, mask, 1);
    assert(f2 == n);
}

/// Standard signals coalesce: while one of a number is pending, delivering
/// another of that number changes nothing and reports that it was dropped.
pub proof fn lemma_standard_coalesces(queues: Seq<Seq<SignalInfo>>, a: SignalInfo, b: SignalInfo)
    requires
        queues.len() == 65,
        a.signo == b.signo,
        a.signo.num() < 32,
        queues[a.signo.num() as int].len() == 0,
    ensures
        put_spec(put_spec(queues, a).0, b) == (put_spec(queues, a).0, false),
        put_spec(queues, a).0[a.signo.num() as int] == seq![a],
{
}

/// The registers a trap saved on the kernel stack (x86-64 layout).
#[derive(Debug, Clone, Copy, PartialEq, Eq, Structural)]
pub struct TrapFrame {
    pub rax: u64,
    pub rcx: u64,
    pub rdx: u64,
    pub rbx: u64,
    pub rbp: u64,
    pub rsi: u64,
    pub rdi: u64,
    pub r8: u64,
    pub r9: u64,
    pub r10: u64,
    pub r11: u64,
    pub r12: u64,
    pub r13: u64,
    pub r14: u64,
    pub r15: u64,
    pub vector: u64,
    pub error_code: u64,
    pub rip: u64,
    pub cs: u64,
    pub rflags: u64,
    pub rsp: u64,
    pub ss: u64,
}

/// The processor state saved when a signal is delivered (x86-64 `mcontext_t`).
#[derive(Debug, Clone, Copy, PartialEq, Eq, Structural)]
pub struct MContext {
    pub r8: usize,
    pub r9: usize,
    pub r10: usize,
    pub r11: usize,
    pub r12: usize,
    pub r13: usize,
    pub r14: usize,
    pub r15: usize,
    pub rdi: usize,
    pub rsi: usize,
    pub rbp: usize,
    pub rbx: usize,
    pub rdx: usize,
    pub rax: usize,
    pub rcx: usize,
    pub rsp: usize,
    pub rip: usize,
    pub eflags: usize,
    pub cs: u16,
    pub gs: u16,
    pub fs: u16,
    pub err: usize,
    pub trapno: usize,
    pub oldmask: usize,
    pub cr2: usize,
    pub fpstate: usize,
}

impl MContext {
    /// The processor state of a trap frame (see `new`).
    pub open spec fn new_spec(tf: TrapFrame) -> MContext {
        MContext {
            r8: tf.r8 as usize,
            r9: tf.r9 as usize,
            r10: tf.r10 as usize,
            r11: tf.r11 as usize,
            r12: tf.r12 as usize,
            r13: tf.r13 as usize,
            r14: tf.r14 as usize,
            r15: tf.r15 as usize,
            rdi: tf.rdi as usize,
            rsi: tf.rsi as usize,
            rbp: tf.rbp as usize,
            rbx: tf.rbx as usize,
            rdx: tf.rdx as usize,
            rax: tf.rax as usize,
            rcx: tf.rcx as usize,
            rsp: tf.rsp as usize,
            rip: tf.rip as usize,
            eflags: tf.rflags as usize,
            cs: tf.cs as u16,
            gs: 0,
            fs: 0,
            err: tf.error_code as usize,
            trapno: tf.vector as usize,
            oldmask: 0,
            cr2: 0,
            fpstate: 0,
        }
    }

    /// The processor state of a trap frame; the segment and fault fields the
    /// frame does not hold are zero.
    pub fn new(tf: &TrapFrame) -> (r: Self)
        ensures
            r.r8 == tf.r8 as usize,
            r.r9 == tf.r9 as usize,
            r.r10 == tf.r10 as usize,
            r.r11 == tf.r11 as usize,
            r.r12 == tf.r12 as usize,
            r.r13 == tf.r13 as usize,
            r.r14 == tf.r14 as usize,
            r.r15 == tf.r15 as usize,
            r.rdi == tf.rdi as usize,
            r.rsi == tf.rsi as usize,
            r.rbp == tf.rbp as usize,
            r.rbx == tf.rbx as usize,
            r.rdx == tf.rdx as usize,
            r.rax == tf.rax as usize,
            r.rcx == tf.rcx as usize,
            r.rsp == tf.rsp as usize,
            r.rip == tf.rip as usize,
            r.eflags == tf.rflags as usize,
            r.cs == tf.cs as u16,
            r.gs == 0 && r.fs == 0,
            r.err == tf.error_code as usize,
            r.trapno == tf.vector as usize,
            r.oldmask == 0 && r.cr2 == 0 && r.fpstate == 0,
    {
        MContext {
            r8: tf.r8 as usize,
            r9: tf.r9 as usize,
            r10: tf.r10 as usize,
            r11: tf.r11 as usize,
            r12: tf.r12 as usize,
            r13: tf.r13 as usize,
            r14: tf.r14 as usize,
            r15: tf.r15 as usize,
            rdi: tf.rdi as usize,
            rsi: tf.rsi as usize,
            rbp: tf.rbp as usize,
            rbx: tf.rbx as usize,
            rdx: tf.rdx as usize,
            rax: tf.rax as usize,
            rcx: tf.rcx as usize,
            rsp: tf.rsp as usize,
            rip: tf.rip as usize,
            eflags: tf.rflags as usize,
            cs: tf.cs as u16,
            gs: 0,
            fs: 0,
            err: tf.error_code as usize,
            trapno: tf.vector as usize,
            oldmask: 0,
            cr2: 0,
            fpstate: 0,
        }
    }

    /// Writes this processor state back into a trap frame; the stack segment
    /// stays as it was.
    pub fn restore(&self, tf: &mut TrapFrame)
        ensures
            final(tf).r8 == self.r8 as u64,
            final(tf).r9 == self.r9 as u64,
            final(tf).r10 == self.r10 as u64,
            final(tf).r11 == self.r11 as u64,
            final(tf).r12 == self.r12 as u64,
            final(tf).r13 == self.r13 as u64,
            final(tf).r14 == self.r14 as u64,
            final(tf).r15 == self.r15 as u64,
            final(tf).rdi == self.rdi as u64,
            final(tf).rsi == self.rsi as u64,
            final(tf).rbp == self.rbp as u64,
            final(tf).rbx == self.rbx as u64,
            final(tf).rdx == self.rdx as u64,
            final(tf).rax == self.rax as u64,
            final(tf).rcx == self.rcx as u64,
            final(tf).rsp == self.rsp as u64,
            final(tf).rip == self.rip as u64,
            final(tf).rflags == self.eflags as u64,
            final(tf).cs == self.cs as u64,
            final(tf).error_code == self.err as u64,
            final(tf).vector == self.trapno as u64,
            final(tf).ss == old(tf).ss,
    {
        tf.r8 = self.r8 as u64;
        tf.r9 = self.r9 as u64;
        tf.r10 = self.r10 as u64;
        tf.r11 = self.r11 as u64;
        tf.r12 = self.r12 as u64;
        tf.r13 = self.r13 as u64;
        tf.r14 = self.r14 as u64;
        tf.r15 = self.r15 as u64;
        tf.rdi = self.rdi as u64;
        tf.rsi = self.rsi as u64;
        tf.rbp = self.rbp as u64;
        tf.rbx = self.rbx as u64;
        tf.rdx = self.rdx as u64;
        tf.rax = self.rax as u64;
        tf.rcx = self.rcx as u64;
        tf.rsp = self.rsp as u64;
        tf.rip = self.rip as u64;
        tf.rflags = self.eflags as u64;
        tf.cs = self.cs as u64;
        tf.error_code = self.err as u64;
        tf.vector = self.trapno as u64;
    }
}

/// Whether every register of a trap frame fits in a machine word and the
/// code segment in 16 bits.
pub open spec fn frame_fits(tf: TrapFrame) -> bool {
    &&& tf.r8 <= usize::MAX
    &&& tf.r9 <= usize::MAX
    &&& tf.r10 <= usize::MAX
    &&& tf.r11 <= usize::MAX
    &&& tf.r12 <= usize::MAX
    &&& tf.r13 <= usize::MAX
    &&& tf.r14 <= usize::MAX
    &&& tf.r15 <= usize::MAX
    &&& tf.rdi <= usize::MAX
    &&& tf.rsi <= usize::MAX
    &&& tf.rbp <= usize::MAX
    &&& tf.rbx <= usize::MAX
    &&& tf.rdx <= usize::MAX
    &&& tf.rax <= usize::MAX
    &&& tf.rcx <= usize::MAX
    &&& tf.rsp <= usize::MAX
    &&& tf.rip <= usize::MAX
    &&& tf.rflags <= usize::MAX
    &&& tf.error_code <= usize::MAX
    &&& tf.vector <= usize::MAX
    &&& tf.cs < 0x10000
}

/// Saving a trap frame into a machine context and restoring it gives the
/// frame back unchanged.
pub proof fn lemma_context_round_trip(tf: TrapFrame, back: TrapFrame, mc: MContext)
    requires
        frame_fits(tf),
        mc.r8 == tf.r8 as usize && mc.r9 == tf.r9 as usize && mc.r10 == tf.r10 as usize
            && mc.r11 == tf.r11 as usize && mc.r12 == tf.r12 as usize && mc.r13 == tf.r13 as usize
            && mc.r14 == tf.r14 as usize && mc.r15 == tf.r15 as usize && mc.rdi == tf.rdi as usize
            && mc.rsi == tf.rsi as usize && mc.rbp == tf.rbp as usize && mc.rbx == tf.rbx as usize
            && mc.rdx == tf.rdx as usize && mc.rax == tf.rax as usize && mc.rcx == tf.rcx as usize
            && mc.rsp == tf.rsp as usize && mc.rip == tf.rip as usize && mc.eflags == tf.rflags as usize
            && mc.cs == tf.cs as u16 && mc.err == tf.error_code as usize && mc.trapno == tf.vector as usize,
        back.r8 == mc.r8 as u64,
back.r9 == mc.r9 as u64,
back.r10 == mc.r10 as u64,
back.r11 == mc.r11 as u64,
back.r12 == mc.r12 as u64,
back.r13 == mc.r13 as u64,
back.r14 == mc.r14 as u64,
back.r15 == mc.r15 as u64,
back.rdi == mc.rdi as u64,
back.rsi == mc.rsi as u64,
back.rbp == mc.rbp as u64,
back.rbx == mc.rbx as u64,
back.rdx == mc.rdx as u64,
back.rax == mc.rax as u64,
back.rcx == mc.rcx as u64,
back.rsp == mc.rsp as u64,
back.rip == mc.rip as u64,
        back.rflags == mc.eflags as u64,
        back.cs == mc.cs as u64,
        back.error_code == mc.err as u64,
        back.vector == mc.trapno as u64,
        back.ss == tf.ss,
    ensures
        back == tf,
{
}

/// The user context saved when a signal is delivered (`ucontext_t`).
#[derive(Debug, Clone, Copy, PartialEq, Eq, Structural)]
pub struct UContext {
    pub flags: usize,
    pub link: usize,
    pub stack: SignalStack,
    pub mcontext: MContext,
    /// The signal mask to restore after the handler.
    pub sigmask: SignalSet,
}

impl UContext {
    /// The context of a trap frame with the mask to restore later.
    pub fn new(tf: &TrapFrame, sigmask: SignalSet) -> (r: Self)
        ensures
            r.flags == 0 && r.link == 0,
            r.stack == (SignalStack { sp: 0, flags: SS_DISABLE, size: 0 }),
            r.mcontext == MContext::new_spec(*tf),
            r.sigmask == sigmask,
    {
        UContext {
            flags: 0,
            link: 0,
            stack: SignalStack::default(),
            mcontext: MContext::new(tf),
            sigmask,
        }
    }
}

} // verus!
