//! The instance facade: the externally exposed operations of one printer,
//! each gated on a token, and most also on the printer's lifecycle state.

use vstd::prelude::*;

use crate::api::{
    PrinterError, PrinterErrorCode, PrinterInfo, PrinterLogin, PrinterResult, PrinterState,
    StartPrintJobResult,
};
use crate::auth::{Auth, AuthRegistry};
use crate::config::InstanceConfig;
use crate::gcode::GcodeFile;
use crate::printer::{Printer, State};
use crate::text::chars_to_string;
use crate::vm::run_string;

verus! {

/// Relies on uuid's version-4 generator for a random job identifier;
/// nothing is promised of the value.  The generator aborts the process if
/// the operating system's randomness source fails — an environmental
/// failure outside any input's control.
#[verifier::external_body]
fn fresh_job_id() -> (r: u128) {
    uuid::Uuid::new_v4().as_u128()
}

/// Sixteen to the `e`.
pub open spec fn pow16(e: nat) -> int
    decreases e,
{
    if e == 0 {
        1
    } else {
        16 * pow16((e - 1) as nat)
    }
}

/// Powers of sixteen are positive.
proof fn lemma_pow16_pos(e: nat)
    ensures
        pow16(e) >= 1,
    decreases e,
{
    if e > 0 {
        lemma_pow16_pos((e - 1) as nat);
    }
}

/// The character of one hex digit.
pub open spec fn spec_hex_digit(d: int) -> char {
    if d == 0 {
        '0'
    } else if d == 1 {
        '1'
    } else if d == 2 {
        '2'
    } else if d == 3 {
        '3'
    } else if d == 4 {
        '4'
    } else if d == 5 {
        '5'
    } else if d == 6 {
        '6'
    } else if d == 7 {
        '7'
    } else if d == 8 {
        '8'
    } else if d == 9 {
        '9'
    } else if d == 10 {
        'a'
    } else if d == 11 {
        'b'
    } else if d == 12 {
        'c'
    } else if d == 13 {
        'd'
    } else if d == 14 {
        'e'
    } else {
        'f'
    }
}

/// The `k`-th hex digit of a 128-bit identifier, most significant first.
pub open spec fn spec_uuid_nibble(id: u128, k: int) -> int {
    ((id as int) / pow16((31 - k) as nat)) % 16
}

/// How many hyphens stand before position `i` of the hyphenated form.
pub open spec fn spec_hyphens_before(i: int) -> int {
    if i <= 8 {
        0
    } else if i <= 13 {
        1
    } else if i <= 18 {
        2
    } else if i <= 23 {
        3
    } else {
        4
    }
}

/// The canonical hyphenated lower-case hex text of a 128-bit identifier:
/// thirty-two hex digits in five groups of 8-4-4-4-12.
pub open spec fn spec_uuid_text(id: u128) -> Seq<char> {
    Seq::new(
        36,
        |i: int|
            if i == 8 || i == 13 || i == 18 || i == 23 {
                '-'
            } else {
                spec_hex_digit(spec_uuid_nibble(id, i - spec_hyphens_before(i)))
            },
    )
}

/// The character of one hex digit.
fn hex_char(d: u128) -> (c: char)
    requires
        d <= 15,
    ensures
        c == spec_hex_digit(d as int),
{
    if d == 0 {
        '0'
    } else if d == 1 {
        '1'
    } else if d == 2 {
        '2'
    } else if d == 3 {
        '3'
    } else if d == 4 {
        '4'
    } else if d == 5 {
        '5'
    } else if d == 6 {
        '6'
    } else if d == 7 {
        '7'
    } else if d == 8 {
        '8'
    } else if d == 9 {
        '9'
    } else if d == 10 {
        'a'
    } else if d == 11 {
        'b'
    } else if d == 12 {
        'c'
    } else if d == 13 {
        'd'
    } else if d == 14 {
        'e'
    } else {
        'f'
    }
}

/// The canonical hyphenated lower-case hex form of a 128-bit identifier.
fn uuid_string(id: u128) -> (s: String)
    ensures
        s@ == spec_uuid_text(id),
{
    let mut out: Vec<char> = Vec::new();
    let mut k: usize = 0;
    let mut p: u128 = 0x1000_0000_0000_0000_0000_0000_0000_0000u128;
    proof {
        assert(pow16(31) == 0x1000_0000_0000_0000_0000_0000_0000_0000) by {
            reveal_with_fuel(pow16, 33);
        };
    }
    while k < 32
        invariant
            k <= 32,
            k < 32 ==> p as int == pow16((31 - k) as nat),
            out@.len() == k + (if k <= 8 {
                0int
            } else if k <= 12 {
                1int
            } else if k <= 16 {
                2int
            } else if k <= 20 {
                3int
            } else {
                4int
            }),
            forall|i: int| 0 <= i < out@.len() ==> out@[i] == spec_uuid_text(id)[i],
        decreases 32 - k,
    {
        if k == 8 || k == 12 || k == 16 || k == 20 {
            out.push('-');
            proof {
                assert(out@.last() == spec_uuid_text(id)[out@.len() - 1]);
            }
        }
        proof {
            lemma_pow16_pos((31 - k) as nat);
        }
        let nibble: u128 = (id / p) % 16;
        let c = hex_char(nibble);
        out.push(c);
        proof {
            let j = out@.len() - 1;
            assert(j != 8 && j != 13 && j != 18 && j != 23);
            assert(j - spec_hyphens_before(j) == k);
            assert(nibble as int == spec_uuid_nibble(id, k as int));
            assert(out@.last() == spec_uuid_text(id)[j]);
        }
        if k < 31 {
            p = p / 16;
            proof {
                assert(pow16((31 - k) as nat) == 16 * pow16((31 - (k + 1)) as nat));
            }
        }
        k = k + 1;
    }
    proof {
        assert(out@ =~= spec_uuid_text(id));
    }
    chars_to_string(&out)
}

/// One printer instance as exposed to the outside.
pub struct Instance {
    /// Position of the instance in the boot order.
    pub index: usize,
    /// Name of the instance.
    pub name: String,
    /// Unique identifier.
    pub uuid: u128,
    /// Where the instance's data lives.
    pub printer_path: String,
    /// Authentication handle.
    pub auth: Auth,
    /// The printer itself.
    pub printer: Printer,
}

impl Instance {
    /// The printer's machine limits hold.
    pub open spec fn wf(self) -> bool {
        self.printer.wf()
    }

    /// A fresh instance around a fresh printer in its startup state; the
    /// caller prepares the directories and then restarts the printer with
    /// the configuration text.
    pub fn create(index: usize, name: String, config: InstanceConfig, printer_path: String)
        -> (inst: Instance)
        ensures
            inst.index == index,
            inst.name == name,
            inst.uuid == config.uuid,
            inst.printer_path == printer_path,
            inst.auth.spec_uuid() == config.uuid,
            inst.printer.state is Startup,
            inst.wf(),
    {
        Instance {
            index,
            name,
            uuid: config.uuid,
            printer_path,
            auth: Auth::acquire(config.uuid),
            printer: Printer::new(),
        }
    }

    /// Validate a token: a live token passes; the first session carrying
    /// an expired token reports `AuthTokenTimeout`; an unknown token
    /// reports `AuthTokenInvalid`.
    pub fn validate_token(&self, reg: &AuthRegistry, token: &str, now: u64) -> (r: Result<
        (),
        PrinterError,
    >)
        ensures
            forall|i: int|
                #[trigger] crate::auth::first_session_with_token(reg.sessions@, token@, i)
                    && now < reg.sessions@[i].expires_at ==> r is Ok,
            forall|i: int|
                #[trigger] crate::auth::first_session_with_token(reg.sessions@, token@, i)
                    && now >= reg.sessions@[i].expires_at ==> (r matches Err(e) && e.code
                    == PrinterErrorCode::AuthTokenTimeout),
            (crate::auth::find_token(reg.sessions@, token@) is None) ==> (r matches Err(e)
                && e.code == PrinterErrorCode::AuthTokenInvalid),
            r is Ok ==> exists|i: int|
                #[trigger] crate::auth::first_session_with_token(reg.sessions@, token@, i)
                    && now < reg.sessions@[i].expires_at,
            r matches Err(e) ==> (e.code == PrinterErrorCode::AuthTokenTimeout || e.code
                == PrinterErrorCode::AuthTokenInvalid) && e.message@ == Seq::<char>::empty(),
    {
        let (is_valid, is_timeout) = self.auth.validate_token(reg, token, now);
        if is_timeout {
            return Err(
                PrinterError { code: PrinterErrorCode::AuthTokenTimeout, message: String::new() },
            );
        }
        if !is_valid {
            return Err(
                PrinterError { code: PrinterErrorCode::AuthTokenInvalid, message: String::new() },
            );
        }
        Ok(())
    }

    /// Validate a token and demand the printer be ready: with a live
    /// token the verdict is the state's own — passage when `Ready`,
    /// otherwise `StartupState`, `ShutdownState` or the stored error; a
    /// timed-out token reports `AuthTokenTimeout`, an unknown one
    /// `AuthTokenInvalid`.
    pub fn validate_token_state(&self, reg: &AuthRegistry, token: &str, now: u64) -> (r: Option<
        PrinterError,
    >)
        ensures
            r is None <==> (self.printer.state is Ready && exists|i: int|
                #[trigger] crate::auth::first_session_with_token(reg.sessions@, token@, i)
                    && now < reg.sessions@[i].expires_at),
            forall|i: int|
                #[trigger] crate::auth::first_session_with_token(reg.sessions@, token@, i)
                    && now < reg.sessions@[i].expires_at ==> match self.printer.state {
                    State::Ready => r is None,
                    State::Startup => (r matches Some(e) && e.code
                        == PrinterErrorCode::StartupState && e.message@ == Seq::<
                        char,
                    >::empty()),
                    State::Shutdown => (r matches Some(e) && e.code
                        == PrinterErrorCode::ShutdownState && e.message@ == Seq::<
                        char,
                    >::empty()),
                    State::Error { code, message } => (r matches Some(e) && e.code == code
                        && e.message@ == message@),
                },
            forall|i: int|
                #[trigger] crate::auth::first_session_with_token(reg.sessions@, token@, i)
                    && now >= reg.sessions@[i].expires_at ==> (r matches Some(e) && e.code
                    == PrinterErrorCode::AuthTokenTimeout),
            (crate::auth::find_token(reg.sessions@, token@) is None) ==> (r matches Some(e)
                && e.code == PrinterErrorCode::AuthTokenInvalid),
    {
        match self.validate_token(reg, token, now) {
            Err(e) => {
                return Some(e);
            },
            Ok(()) => {},
        }
        match self.printer.state() {
            State::Error { code, message } => Some(
                PrinterError {
                    code: *code,
                    message: chars_to_string(&crate::text::str_chars(message.as_str())),
                },
            ),
            State::Shutdown => Some(
                PrinterError { code: PrinterErrorCode::ShutdownState, message: String::new() },
            ),
            State::Startup => Some(
                PrinterError { code: PrinterErrorCode::StartupState, message: String::new() },
            ),
            State::Ready => None,
        }
    }

    /// Log in: credentials matching this printer's user name (its
    /// identifier's decimal digits) yield a token pair, anything else
    /// `AuthFailed`.
    pub fn login(&self, reg: &mut AuthRegistry, pwd: &str, now: u64) -> (r: PrinterResult<
        PrinterLogin,
    >)
        ensures
            r.result is Some <==> crate::auth::credentials_match(
                old(reg).users@,
                crate::numbers::spec_render_digits(self.auth.spec_uuid() as nat),
                pwd@,
            ),
            r.result is None ==> r.error.code == PrinterErrorCode::AuthFailed && *final(reg)
                == *old(reg),
            r.result matches Some(l) ==> {
                let sessions = final(reg).sessions@;
                &&& r.error.code == PrinterErrorCode::NoError
                &&& sessions.len() == old(reg).sessions@.len() + 1
                &&& sessions.last().token@ == l.token@
                &&& sessions.last().refresh_token@ == l.refresh_token@
                &&& sessions.last().expires_at == crate::auth::spec_expiry(now)
            },
    {
        match self.auth.login(reg, pwd, now) {
            Some((token, refresh_token)) => PrinterResult::ok(
                PrinterLogin { token, refresh_token },
            ),
            None => PrinterResult::err(
                PrinterError { code: PrinterErrorCode::AuthFailed, message: String::new() },
            ),
        }
    }

    /// Log out: an unknown token reports `AuthTokenInvalid`.
    pub fn logout(&self, reg: &mut AuthRegistry, token: &str) -> (r: PrinterResult<()>)
        ensures
            r.result is Some <==> crate::auth::find_token(old(reg).sessions@, token@) is Some,
            r.result is None ==> r.error.code == PrinterErrorCode::AuthTokenInvalid,
    {
        if self.auth.logout(reg, token) {
            PrinterResult::ok(())
        } else {
            PrinterResult::err(
                PrinterError { code: PrinterErrorCode::AuthTokenInvalid, message: String::new() },
            )
        }
    }

    /// Reset the password behind a live token: success exactly when the
    /// first session carrying the token is unexpired and a user carries
    /// its user name — that user's password changes and nothing else;
    /// failure reports `AuthFailed` and changes nothing.
    pub fn reset_password(&self, reg: &mut AuthRegistry, token: &str, new_password: &str, now: u64)
        -> (r: PrinterResult<()>)
        ensures
            final(reg).sessions == old(reg).sessions,
            r.result is Some <==> exists|i: int|
                #[trigger] crate::auth::first_session_with_token(old(reg).sessions@, token@, i)
                    && now < old(reg).sessions@[i].expires_at && exists|j: int|
                    0 <= j < old(reg).users@.len() && old(reg).users@[j].0@ == old(
                        reg,
                    ).sessions@[i].username@,
            r.result is None ==> r.error.code == PrinterErrorCode::AuthFailed && *final(reg)
                == *old(reg),
    {
        if self.auth.reset_password(reg, token, new_password, now) {
            PrinterResult::ok(())
        } else {
            PrinterResult::err(
                PrinterError { code: PrinterErrorCode::AuthFailed, message: String::new() },
            )
        }
    }

    /// Exchange a refresh token: a pair comes exactly when some session
    /// carries the refresh token — the first such session is reissued
    /// with the returned pair and a fresh expiry; an unknown one reports
    /// `RefreshTokenInvalid` and changes nothing.
    pub fn refresh_token(&self, reg: &mut AuthRegistry, refresh: &str, now: u64) -> (r:
        PrinterResult<PrinterLogin>)
        ensures
            final(reg).users == old(reg).users,
            r.result is Some <==> exists|i: int|
                0 <= i < old(reg).sessions@.len() && (#[trigger] old(
                    reg,
                ).sessions@[i]).refresh_token@ == refresh@,
            r.result is None ==> r.error.code == PrinterErrorCode::RefreshTokenInvalid
                && *final(reg) == *old(reg),
            r.result matches Some(l) ==> exists|i: int|
                {
                    &&& #[trigger] crate::auth::first_session_with_refresh(
                        old(reg).sessions@,
                        refresh@,
                        i,
                    )
                    &&& final(reg).sessions@.len() == old(reg).sessions@.len()
                    &&& final(reg).sessions@[i].token@ == l.token@
                    &&& final(reg).sessions@[i].refresh_token@ == l.refresh_token@
                    &&& final(reg).sessions@[i].username@ == old(reg).sessions@[i].username@
                    &&& final(reg).sessions@[i].expires_at == crate::auth::spec_expiry(now)
                    &&& forall|k: int|
                        0 <= k < old(reg).sessions@.len() && k != i
                            ==> final(reg).sessions@[k] == old(reg).sessions@[k]
                },
    {
        match self.auth.refresh_token(reg, refresh, now) {
            Some((token, refresh_token)) => PrinterResult::ok(
                PrinterLogin { token, refresh_token },
            ),
            None => PrinterResult::err(
                PrinterError {
                    code: PrinterErrorCode::RefreshTokenInvalid,
                    message: String::new(),
                },
            ),
        }
    }

    /// Report the printer's state, error details and data path.
    pub fn get_info(&self) -> (r: PrinterResult<PrinterInfo>)
        ensures
            r.error.code == PrinterErrorCode::NoError,
            r.result matches Some(info) && info.printer_path@ == self.printer_path@ && match self
                .printer.state {
                State::Ready => info.state == PrinterState::Ready && info.error_state_code
                    == PrinterErrorCode::NoError && info.error_state_message@ == Seq::<
                    char,
                >::empty(),
                State::Startup => info.state == PrinterState::Startup && info.error_state_code
                    == PrinterErrorCode::NoError && info.error_state_message@ == Seq::<
                    char,
                >::empty(),
                State::Shutdown => info.state == PrinterState::Shutdown
                    && info.error_state_code == PrinterErrorCode::NoError
                    && info.error_state_message@ == Seq::<char>::empty(),
                State::Error { code, message } => info.state == PrinterState::Error
                    && info.error_state_code == code && info.error_state_message@ == message@,
            },
    {
        let (state, error_state_code, error_state_message): (
            PrinterState,
            PrinterErrorCode,
            String,
        ) = match self.printer.state() {
            State::Error { code, message } => (
                PrinterState::Error,
                *code,
                chars_to_string(&crate::text::str_chars(message.as_str())),
            ),
            State::Ready => (PrinterState::Ready, PrinterErrorCode::NoError, String::new()),
            State::Shutdown => (
                PrinterState::Shutdown,
                PrinterErrorCode::NoError,
                String::new(),
            ),
            State::Startup => (PrinterState::Startup, PrinterErrorCode::NoError, String::new()),
        };
        PrinterResult::ok(
            PrinterInfo {
                state,
                error_state_code,
                error_state_message,
                printer_path: chars_to_string(
                    &crate::text::str_chars(self.printer_path.as_str()),
                ),
            },
        )
    }

    /// Stop the printer at once; always succeeds.
    pub fn emergency_stop(&mut self) -> (r: PrinterResult<()>)
        requires
            old(self).wf(),
        ensures
            final(self).wf(),
            final(self).printer.state is Shutdown,
            final(self).printer.vm.spec_suspended(),
            final(self).printer.vm.queue@.suspended,
            r.result is Some,
    {
        self.printer.emergency_stop();
        PrinterResult::ok(())
    }

    /// Stop, then restart from the given configuration text (or read
    /// failure); always reports success, the outcome shows in the state:
    /// `Ready` exactly when the text derives from the configuration
    /// grammar.
    pub fn restart(&mut self, source: Result<String, (PrinterErrorCode, String)>) -> (r:
        PrinterResult<()>)
        requires
            old(self).wf(),
        ensures
            final(self).wf(),
            r.result is Some,
            match source {
                Err((code, message)) => final(self).printer.state == (State::Error {
                    code,
                    message,
                }),
                Ok(text) => {
                    &&& (final(self).printer.state is Ready
                        <==> crate::config::spec_parse_config(text@) is Ok)
                    &&& final(self).printer.state is Ready || (
                    final(self).printer.state matches State::Error {
                        code: PrinterErrorCode::PrinterConfigParseError,
                        ..
                    })
                },
            },
    {
        self.printer.emergency_stop();
        self.printer.restart(source);
        PrinterResult::ok(())
    }

    /// Run a script at once: a parse or dispatch failure surfaces as
    /// `GcodeParseError`.
    pub fn run_gcode(&mut self, script: &str) -> (r: PrinterResult<()>)
        requires
            old(self).wf(),
        ensures
            final(self).wf(),
            ({
                let (qm, e) = run_string(
                    old(self).printer.vm.spec_suspended(),
                    old(self).printer.vm.queue@,
                    script@,
                );
                &&& final(self).printer.vm.queue@ == qm
                &&& r.result is Some <==> e is None
                &&& r.result is None ==> r.error.code == PrinterErrorCode::GcodeParseError
            }),
    {
        match self.printer.run_gcode_string(script) {
            Ok(()) => PrinterResult::ok(()),
            Err(_e) => PrinterResult::err(
                PrinterError {
                    code: PrinterErrorCode::GcodeParseError,
                    message: String::from_str("the script did not run"),
                },
            ),
        }
    }

    /// Accept a print job: the caller supplies the parsed file (or the
    /// failure opening it, which is passed through); an accepted job
    /// carrying exactly that file and exclusion list joins the queue
    /// under a fresh identifier, returned in hyphenated hex form.
    pub fn start_print_job(
        &mut self,
        file: Result<GcodeFile, PrinterError>,
        exclude_objects: Vec<String>,
    ) -> (r: PrinterResult<StartPrintJobResult>)
        requires
            old(self).wf(),
            file matches Ok(f) ==> f.commands@.len() <= u64::MAX,
        ensures
            final(self).wf(),
            match file {
                Ok(f) => {
                    &&& r.result is Some
                    &&& exists|id: u128|
                        {
                            let jobs = final(self).printer.print_job_queue@;
                            &&& jobs.len() == old(self).printer.print_job_queue@.len() + 1
                            &&& jobs.last().id == id
                            &&& #[trigger] spec_uuid_text(id) == r.result->Some_0.job_id@
                            &&& jobs.last().file == f
                            &&& jobs.last().start_timestamp is None
                            &&& jobs.last().exclude_objects == exclude_objects
                            &&& forall|j: int|
                                0 <= j < old(self).printer.print_job_queue@.len()
                                    ==> jobs[j] == old(self).printer.print_job_queue@[j]
                        }
                },
                Err(e) => r.error == e && r.result is None && final(self).printer
                    == old(self).printer,
            },
    {
        match file {
            Ok(f) => {
                let id = fresh_job_id();
                let _run_now = self.printer.spawn_print_job(id, f, exclude_objects);
                PrinterResult::ok(StartPrintJobResult { job_id: uuid_string(id) })
            },
            Err(e) => PrinterResult::err(e),
        }
    }
}

} // verus!
