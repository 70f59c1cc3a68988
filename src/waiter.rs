//! Waiting for services to become ready, as a state machine: the caller runs
//! each requested runtime call (or reads the clock) and feeds the result back.
use vstd::prelude::*;
use crate::compose::{compose_args, compose_args_with, strings_view, DockerCompose, Service};
use crate::pattern::match_count;
use crate::text::{contains_text, count_char, count_newlines, occurs_in};

verus! {

/// Container states that mean a service failed to start.
#[derive(Clone, Copy, Debug, PartialEq, Eq, Structural)]
pub enum ContainerStatus {
    Exited,
    Dead,
    Removing,
}

/// The states checked, in order, in each round.
pub open spec fn status_at(k: int) -> ContainerStatus {
    if k == 0 {
        ContainerStatus::Exited
    } else if k == 1 {
        ContainerStatus::Dead
    } else {
        ContainerStatus::Removing
    }
}

/// A runtime call whose output the waiter needs.
#[derive(Clone, Copy, Debug, PartialEq, Eq, Structural)]
pub enum Request {
    /// The help text of `ps`, to learn whether it takes `--status`.
    StatusFlagHelp,
    /// The logs of the service at this index of the registry.
    ServiceLogs(usize),
    /// The logs of the whole environment.
    AllLogs,
    /// The table of containers in the given state.
    ContainersWithStatus(ContainerStatus),
}

/// What the caller does next.
#[derive(Debug)]
pub enum Action {
    /// Run the call and hand its output back as `Event::Output`.
    Run(Request),
    /// Hand back the milliseconds elapsed since the wait began, as `Event::Elapsed`.
    ReadClock,
    /// Every service is ready; its readiness match has been consumed.
    Ready,
    /// A container entered a failure state; `containers` is the table that shows it.
    ContainerFailed { containers: String, logs: String },
    /// The wait ran out of time; `results` tells, per service, whether its pattern was found.
    TimedOut { timeout_ms: u64, results: String, logs: String },
    /// The event does not answer what the waiter asked for; nothing changed.
    OutOfOrder,
}

/// What the caller hands back.
#[derive(Debug)]
pub enum Event {
    Output(String),
    Elapsed(u64),
}

/// Where the waiter stands in its round.
#[derive(Clone, Copy, Debug, PartialEq, Eq, Structural)]
pub enum Phase {
    /// Waiting for the help text of `ps`.
    Probing,
    /// Waiting for the logs of the target at this position.
    Checking(usize),
    /// Waiting for the logs of the whole environment.
    Collecting,
    /// Waiting for the table of containers in `status_at` of this position.
    Status(usize),
    /// Waiting for the elapsed time.
    Clock,
    /// Out of time; waiting for the logs of the target at this position, to report on it.
    Reporting(usize),
    /// Done: ready or failed.
    Finished,
}

/// The report line of one service after a timeout.
pub open spec fn report_line(name: Seq<char>, pattern: Seq<char>, found: bool) -> Seq<char> {
    "*    Service "@ + name + ", searched for '"@ + pattern + "', was "@ + (if found {
        "Found"@
    } else {
        "Missing"@
    }) + "\n"@
}

/// The largest timeout among the targets.
pub open spec fn max_timeout(services: Seq<Service>, targets: Seq<usize>) -> nat
    decreases targets.len(),
{
    if targets.len() == 0 {
        0
    } else {
        let rest = max_timeout(services, targets.drop_last());
        let t = services[targets.last() as int].spec_timeout_ms();
        if t > rest {
            t
        } else {
            rest
        }
    }
}

fn report_line_of(service: &Service, found: bool) -> (r: String)
    ensures
        r@ == report_line(service.spec_name(), service.spec_pattern(), found),
{
    let mut r = String::from_str("*    Service ");
    r.append(service.name());
    r.append(", searched for '");
    r.append(service.pattern().source());
    r.append("', was ");
    if found {
        r.append("Found");
    } else {
        r.append("Missing");
    }
    r.append("\n");
    r
}

/// A wait for a set of services (the targets) to each show one more readiness
/// match than they have consumed.
pub struct Waiter {
    targets: Vec<usize>,
    timeout_ms: u64,
    status_flag: bool,
    all_logs: String,
    results: String,
    phase: Phase,
    observed: Ghost<Seq<nat>>,
}

impl Waiter {
    pub closed spec fn spec_targets(&self) -> Seq<usize> {
        self.targets@
    }

    pub closed spec fn spec_timeout_ms(&self) -> nat {
        self.timeout_ms as nat
    }

    /// Whether the runtime's `ps` takes `--status`.
    pub closed spec fn spec_status_flag(&self) -> bool {
        self.status_flag
    }

    pub closed spec fn spec_all_logs(&self) -> Seq<char> {
        self.all_logs@
    }

    pub closed spec fn spec_results(&self) -> Seq<char> {
        self.results@
    }

    pub closed spec fn spec_phase(&self) -> Phase {
        self.phase
    }

    /// The match counts seen so far in this round, one per target checked.
    pub closed spec fn spec_observed(&self) -> Seq<nat> {
        self.observed@
    }

    /// The state of the `k`-th target in `c`.
    pub open spec fn target(&self, c: DockerCompose, k: int) -> Service {
        c.spec_services()[self.spec_targets()[k] as int]
    }

    pub open spec fn target_seen(&self, c: DockerCompose, k: int) -> nat {
        c.spec_logs_seen()[self.spec_targets()[k] as int]
    }

    pub open spec fn wf(&self, c: DockerCompose) -> bool {
        &&& c.wf()
        &&& self.spec_targets().no_duplicates()
        &&& forall|j: int| 0 <= j < self.spec_targets().len() ==> #[trigger] self.spec_targets()[j] < c.spec_services().len()
        &&& self.spec_timeout_ms() == max_timeout(c.spec_services(), self.spec_targets())
        &&& !(self.spec_phase() is Probing || self.spec_phase() is Finished) ==> self.spec_targets().len() > 0
        &&& self.spec_phase() matches Phase::Checking(k) ==> {
            &&& k < self.spec_targets().len()
            &&& self.spec_observed().len() == k
            &&& forall|j: int| 0 <= j < k ==> #[trigger] self.spec_observed()[j] > self.target_seen(c, j)
                && self.spec_observed()[j] <= usize::MAX
        }
        &&& self.spec_phase() matches Phase::Status(k) ==> k < 3
        &&& self.spec_phase() matches Phase::Reporting(k) ==> k < self.spec_targets().len()
    }

    /// Same waiter state, field by field.
    pub open spec fn same(&self, other: Waiter) -> bool {
        &&& self.spec_targets() == other.spec_targets()
        &&& self.spec_timeout_ms() == other.spec_timeout_ms()
        &&& self.spec_status_flag() == other.spec_status_flag()
        &&& self.spec_all_logs() == other.spec_all_logs()
        &&& self.spec_results() == other.spec_results()
        &&& self.spec_phase() == other.spec_phase()
        &&& self.spec_observed() == other.spec_observed()
    }
}

/// What one step does: from waiter `w` over registry `c`, on `event`, to waiter
/// `w2` and action `r`.
pub open spec fn transition(w: Waiter, c: DockerCompose, event: Event, w2: Waiter, r: Action) -> bool {
    let n = w.spec_targets().len();
    match w.spec_phase() {
        Phase::Probing => match event {
            Event::Output(help) => {
                &&& w2.spec_status_flag() == occurs_in("--status"@, help@)
                &&& w2.spec_observed() == Seq::<nat>::empty()
                &&& if n == 0 {
                    r is Ready && w2.spec_phase() == Phase::Finished
                } else {
                    r == Action::Run(Request::ServiceLogs(w.spec_targets()[0]))
                        && w2.spec_phase() == Phase::Checking(0)
                }
            },
            _ => r is OutOfOrder && w2.same(w),
        },
        Phase::Checking(k) => match event {
            Event::Output(log) => {
                let count = match_count(w.target(c, k as int).spec_pattern(), log@);
                if count > w.target_seen(c, k as int) {
                    &&& w2.spec_observed() == w.spec_observed().push(count)
                    &&& if k + 1 < n {
                        r == Action::Run(Request::ServiceLogs(w.spec_targets()[k + 1]))
                            && w2.spec_phase() == Phase::Checking((k + 1) as usize)
                    } else {
                        r is Ready && w2.spec_phase() == Phase::Finished
                    }
                } else {
                    r == Action::Run(Request::AllLogs) && w2.spec_phase() == Phase::Collecting
                }
            },
            _ => r is OutOfOrder && w2.same(w),
        },
        Phase::Collecting => match event {
            Event::Output(all) => {
                &&& w2.spec_all_logs() == all@
                &&& if w.spec_status_flag() {
                    r == Action::Run(Request::ContainersWithStatus(ContainerStatus::Exited))
                        && w2.spec_phase() == Phase::Status(0)
                } else {
                    r is ReadClock && w2.spec_phase() == Phase::Clock
                }
            },
            _ => r is OutOfOrder && w2.same(w),
        },
        Phase::Status(k) => match event {
            Event::Output(table) => if count_char(table@, '\n') > 1 {
                &&& w2.spec_phase() == Phase::Finished
                &&& r matches Action::ContainerFailed { containers, logs }
                &&& containers@ == table@
                &&& logs@ == w.spec_all_logs()
            } else if k < 2 {
                r == Action::Run(Request::ContainersWithStatus(status_at(k + 1)))
                    && w2.spec_phase() == Phase::Status((k + 1) as usize)
            } else {
                r is ReadClock && w2.spec_phase() == Phase::Clock
            },
            _ => r is OutOfOrder && w2.same(w),
        },
        Phase::Clock => match event {
            Event::Elapsed(ms) => {
                &&& r == Action::Run(Request::ServiceLogs(w.spec_targets()[0]))
                &&& if ms > w.spec_timeout_ms() {
                    w2.spec_phase() == Phase::Reporting(0) && w2.spec_results() == Seq::<char>::empty()
                } else {
                    w2.spec_phase() == Phase::Checking(0) && w2.spec_observed() == Seq::<nat>::empty()
                }
            },
            _ => r is OutOfOrder && w2.same(w),
        },
        Phase::Reporting(k) => match event {
            Event::Output(log) => {
                let found = match_count(w.target(c, k as int).spec_pattern(), log@) > 0;
                &&& w2.spec_results() == w.spec_results() + report_line(
                    w.target(c, k as int).spec_name(),
                    w.target(c, k as int).spec_pattern(),
                    found,
                )
                &&& if k + 1 < n {
                    r == Action::Run(Request::ServiceLogs(w.spec_targets()[k + 1]))
                        && w2.spec_phase() == Phase::Reporting((k + 1) as usize)
                } else {
                    &&& w2.spec_phase() == Phase::Finished
                    &&& r matches Action::TimedOut { timeout_ms, results, logs }
                    &&& timeout_ms == w.spec_timeout_ms()
                    &&& results@ == w2.spec_results()
                    &&& logs@ == w.spec_all_logs()
                }
            },
            _ => r is OutOfOrder && w2.same(w),
        },
        Phase::Finished => r is OutOfOrder && w2.same(w),
    }
}

fn status_of(k: usize) -> (r: ContainerStatus)
    ensures
        r == status_at(k as int),
{
    if k == 0 {
        ContainerStatus::Exited
    } else if k == 1 {
        ContainerStatus::Dead
    } else {
        ContainerStatus::Removing
    }
}

impl Waiter {
    /// A wait for the services of `compose` at the indices `targets`.
    /// The first call to run is `Request::StatusFlagHelp`.
    pub fn new(compose: &DockerCompose, targets: Vec<usize>) -> (r: Waiter)
        requires
            compose.wf(),
            targets@.no_duplicates(),
            forall|j: int| 0 <= j < targets@.len() ==> #[trigger] targets@[j] < compose.spec_services().len(),
        ensures
            r.wf(*compose),
            r.spec_targets() == targets@,
            r.spec_phase() == Phase::Probing,
    {
        let mut timeout_ms: u64 = 0;
        let mut i: usize = 0;
        while i < targets.len()
            invariant
                i <= targets@.len(),
                forall|j: int| 0 <= j < targets@.len() ==> #[trigger] targets@[j] < compose.spec_services().len(),
                timeout_ms as nat == max_timeout(compose.spec_services(), targets@.subrange(0, i as int)),
            decreases targets@.len() - i,
        {
            assert(targets@.subrange(0, i + 1).drop_last() =~= targets@.subrange(0, i as int));
            let t = compose.services()[targets[i]].timeout_ms();
            if t > timeout_ms {
                timeout_ms = t;
            }
            i = i + 1;
        }
        assert(targets@.subrange(0, targets@.len() as int) =~= targets@);
        Waiter {
            targets,
            timeout_ms,
            status_flag: false,
            all_logs: String::new(),
            results: String::new(),
            phase: Phase::Probing,
            observed: Ghost(Seq::empty()),
        }
    }

    pub fn phase(&self) -> (r: Phase)
        ensures
            r == self.spec_phase(),
    {
        self.phase
    }

    pub fn timeout_ms(&self) -> (r: u64)
        ensures
            r as nat == self.spec_timeout_ms(),
    {
        self.timeout_ms
    }

    /// The call to run before the first step.
    pub fn first_request(&self) -> (r: Request)
        ensures
            r == Request::StatusFlagHelp,
    {
        Request::StatusFlagHelp
    }

    /// Takes the answer to the last request and says what to do next. Only a
    /// `Ready` action changes `compose`: it consumes one readiness match of
    /// each target.
    pub fn step(&mut self, compose: &mut DockerCompose, event: Event) -> (r: Action)
        requires
            old(self).wf(*old(compose)),
        ensures
            final(self).wf(*final(compose)),
            final(self).spec_targets() == old(self).spec_targets(),
            final(self).spec_timeout_ms() == old(self).spec_timeout_ms(),
            final(compose).spec_services() == old(compose).spec_services(),
            final(compose).spec_file_path() == old(compose).spec_file_path(),
            final(compose).spec_logs_seen().len() == old(compose).spec_logs_seen().len(),
            forall|i: int| 0 <= i < old(compose).spec_logs_seen().len() ==> #[trigger] final(compose).spec_logs_seen()[i]
                == old(compose).spec_logs_seen()[i] + if r is Ready && old(self).spec_targets().contains(i as usize) {
                    1nat
                } else {
                    0nat
                },
            forall|i: int| 0 <= i < old(compose).spec_logs_seen().len() ==> #[trigger] final(compose).spec_logs_seen()[i]
                >= old(compose).spec_logs_seen()[i],
            r is Ready ==> final(self).spec_observed().len() == old(self).spec_targets().len() && forall|j: int|
                0 <= j < old(self).spec_targets().len() ==> #[trigger] final(self).spec_observed()[j]
                    > old(self).target_seen(*old(compose), j),
            transition(*old(self), *old(compose), event, *final(self), r),
    {
        let n = self.targets.len();
        match self.phase {
            Phase::Probing => match event {
                Event::Output(help) => {
                    self.status_flag = contains_text(help.as_str(), "--status");
                    self.observed = Ghost(Seq::empty());
                    if n == 0 {
                        self.phase = Phase::Finished;
                        Action::Ready
                    } else {
                        self.phase = Phase::Checking(0);
                        Action::Run(Request::ServiceLogs(self.targets[0]))
                    }
                },
                Event::Elapsed(_) => Action::OutOfOrder,
            },
            Phase::Checking(k) => match event {
                Event::Output(log) => {
                    let t = self.targets[k];
                    let count = compose.services()[t].pattern().count_in(log.as_str());
                    if count > compose.logs_seen(t) {
                        self.observed = Ghost(self.observed@.push(count as nat));
                        if k + 1 < n {
                            self.phase = Phase::Checking(k + 1);
                            Action::Run(Request::ServiceLogs(self.targets[k + 1]))
                        } else {
                            proof {
                                assert forall|j: int| 0 <= j < self.targets@.len() implies
                                    #[trigger] compose.spec_logs_seen()[self.targets@[j] as int] < usize::MAX by {
                                    assert(self.observed@[j] > self.target_seen(*compose, j));
                                }
                            }
                            compose.consume_matches(&self.targets);
                            self.phase = Phase::Finished;
                            Action::Ready
                        }
                    } else {
                        self.phase = Phase::Collecting;
                        Action::Run(Request::AllLogs)
                    }
                },
                Event::Elapsed(_) => Action::OutOfOrder,
            },
            Phase::Collecting => match event {
                Event::Output(all) => {
                    self.all_logs = all;
                    if self.status_flag {
                        self.phase = Phase::Status(0);
                        Action::Run(Request::ContainersWithStatus(ContainerStatus::Exited))
                    } else {
                        self.phase = Phase::Clock;
                        Action::ReadClock
                    }
                },
                Event::Elapsed(_) => Action::OutOfOrder,
            },
            Phase::Status(k) => match event {
                Event::Output(table) => {
                    if count_newlines(table.as_str()) > 1 {
                        self.phase = Phase::Finished;
                        Action::ContainerFailed { containers: table, logs: self.all_logs.clone() }
                    } else if k < 2 {
                        self.phase = Phase::Status(k + 1);
                        Action::Run(Request::ContainersWithStatus(status_of(k + 1)))
                    } else {
                        self.phase = Phase::Clock;
                        Action::ReadClock
                    }
                },
                Event::Elapsed(_) => Action::OutOfOrder,
            },
            Phase::Clock => match event {
                Event::Elapsed(ms) => {
                    if ms > self.timeout_ms {
                        self.phase = Phase::Reporting(0);
                        self.results = String::new();
                    } else {
                        self.phase = Phase::Checking(0);
                        self.observed = Ghost(Seq::empty());
                    }
                    Action::Run(Request::ServiceLogs(self.targets[0]))
                },
                Event::Output(_) => Action::OutOfOrder,
            },
            Phase::Reporting(k) => match event {
                Event::Output(log) => {
                    let t = self.targets[k];
                    let found = compose.services()[t].pattern().count_in(log.as_str()) > 0;
                    let line = report_line_of(&compose.services()[t], found);
                    self.results.append(line.as_str());
                    if k + 1 < n {
                        self.phase = Phase::Reporting(k + 1);
                        Action::Run(Request::ServiceLogs(self.targets[k + 1]))
                    } else {
                        self.phase = Phase::Finished;
                        Action::TimedOut {
                            timeout_ms: self.timeout_ms,
                            results: self.results.clone(),
                            logs: self.all_logs.clone(),
                        }
                    }
                },
                Event::Elapsed(_) => Action::OutOfOrder,
            },
            Phase::Finished => Action::OutOfOrder,
        }
    }
}


pub open spec fn status_word(s: ContainerStatus) -> Seq<char> {
    match s {
        ContainerStatus::Exited => "exited"@,
        ContainerStatus::Dead => "dead"@,
        ContainerStatus::Removing => "removing"@,
    }
}

/// The arguments, after `compose -f <path>`, of the runtime call for `q`.
pub open spec fn request_rest(c: DockerCompose, q: Request) -> Seq<Seq<char>> {
    match q {
        Request::StatusFlagHelp => seq!["ps"@, "--help"@],
        Request::ServiceLogs(i) => seq!["logs"@, c.spec_services()[i as int].spec_name()],
        Request::AllLogs => seq!["logs"@],
        Request::ContainersWithStatus(s) => seq!["ps"@, "--status"@, status_word(s)],
    }
}

fn status_text(s: ContainerStatus) -> (r: String)
    ensures
        r@ == status_word(s),
{
    match s {
        ContainerStatus::Exited => String::from_str("exited"),
        ContainerStatus::Dead => String::from_str("dead"),
        ContainerStatus::Removing => String::from_str("removing"),
    }
}

impl DockerCompose {
    /// The runtime call that answers `request`.
    pub fn request_args(&self, request: Request) -> (r: Vec<String>)
        requires
            request matches Request::ServiceLogs(i) ==> i < self.spec_services().len(),
        ensures
            strings_view(r@) == compose_args(self.spec_file_path(), request_rest(*self, request)),
    {
        let rest = match request {
            Request::StatusFlagHelp => vec![String::from_str("ps"), String::from_str("--help")],
            Request::ServiceLogs(i) => vec![String::from_str("logs"), String::from_str(self.services()[i].name())],
            Request::AllLogs => vec![String::from_str("logs")],
            Request::ContainersWithStatus(s) => vec![String::from_str("ps"), String::from_str("--status"), status_text(s)],
        };
        assert(strings_view(rest@) =~= request_rest(*self, request));
        compose_args_with(self.file_path(), rest)
    }

    /// A wait for every service of the environment.
    pub fn wait_all(&self) -> (r: Waiter)
        requires
            self.wf(),
        ensures
            r.wf(*self),
            r.spec_targets() == Seq::new(self.spec_services().len(), |i: int| i as usize),
            r.spec_phase() == Phase::Probing,
    {
        let n = self.services().len();
        let mut targets: Vec<usize> = Vec::new();
        let mut i: usize = 0;
        while i < n
            invariant
                i <= n,
                n == self.spec_services().len(),
                targets@ == Seq::new(i as nat, |j: int| j as usize),
            decreases n - i,
        {
            targets.push(i);
            assert(targets@ =~= Seq::new((i + 1) as nat, |j: int| j as usize));
            i = i + 1;
        }
        Waiter::new(self, targets)
    }

    /// For the service named `service_name`: the runtime call that starts it
    /// again, and a wait for its next readiness match. `None` when no service
    /// has that name.
    pub fn start_service(&self, service_name: &str) -> (r: Option<(Vec<String>, Waiter)>)
        requires
            self.wf(),
        ensures
            r is None <==> forall|j: int| 0 <= j < self.spec_services().len() ==> #[trigger] self.spec_services()[j].spec_name() != service_name@,
            r matches Some(p) ==> {
                &&& strings_view(p.0@) == compose_args(self.spec_file_path(), seq!["start"@, service_name@])
                &&& p.1.wf(*self)
                &&& p.1.spec_phase() == Phase::Probing
                &&& p.1.spec_targets().len() == 1
                &&& self.spec_services()[p.1.spec_targets()[0] as int].spec_name() == service_name@
            },
    {
        match self.find_service(service_name) {
            Some(i) => {
                let rest = vec![String::from_str("start"), String::from_str(service_name)];
                assert(strings_view(rest@) =~= seq!["start"@, service_name@]);
                let args = compose_args_with(self.file_path(), rest);
                let targets = vec![i];
                assert(targets@.no_duplicates());
                Some((args, Waiter::new(self, targets)))
            },
            None => None,
        }
    }
}


/// Whether `event` completes a round in which every target showed a new
/// readiness match: the last target's log holds more matches than it has
/// consumed, or there are no targets at all.
pub open spec fn completes_round(w: Waiter, c: DockerCompose, event: Event) -> bool {
    match (w.spec_phase(), event) {
        (Phase::Probing, Event::Output(_)) => w.spec_targets().len() == 0,
        (Phase::Checking(k), Event::Output(log)) => k + 1 == w.spec_targets().len() && match_count(
            w.target(c, k as int).spec_pattern(),
            log@,
        ) > w.target_seen(c, k as int),
        _ => false,
    }
}

/// A wait reports its services ready exactly when a round completes in which
/// each target's log held one more readiness match than the target had
/// consumed; the counts seen in that round are each above what was consumed.
pub proof fn lemma_ready_iff_every_target_matched_again(
    w: Waiter,
    c: DockerCompose,
    event: Event,
    w2: Waiter,
    r: Action,
)
    requires
        w.wf(c),
        transition(w, c, event, w2, r),
    ensures
        r is Ready <==> completes_round(w, c, event),
        r is Ready ==> w2.spec_observed().len() == w.spec_targets().len() && forall|j: int|
            0 <= j < w.spec_targets().len() ==> #[trigger] w2.spec_observed()[j] > w.target_seen(c, j),
{
    if let Phase::Checking(k) = w.spec_phase() {
        if let Event::Output(log) = event {
            let count = match_count(w.target(c, k as int).spec_pattern(), log@);
            if count > w.target_seen(c, k as int) && k + 1 == w.spec_targets().len() {
                assert forall|j: int| 0 <= j < w.spec_targets().len() implies #[trigger] w2.spec_observed()[j]
                    > w.target_seen(c, j) by {
                    if j < k {
                        assert(w2.spec_observed()[j] == w.spec_observed()[j]);
                    } else {
                        assert(w2.spec_observed()[j] == count);
                    }
                }
            }
        }
    }
}

/// A container found in a failure state ends the wait at once: the step that
/// reads such a table fails with it and the collected logs, without reading
/// the clock.
pub proof fn lemma_failed_container_fails_fast(
    w: Waiter,
    c: DockerCompose,
    table: String,
    w2: Waiter,
    r: Action,
)
    requires
        w.wf(c),
        w.spec_phase() is Status,
        count_char(table@, '\n') > 1,
        transition(w, c, Event::Output(table), w2, r),
    ensures
        w2.spec_phase() == Phase::Finished,
        r matches Action::ContainerFailed { containers, logs } && containers@ == table@ && logs@
            == w.spec_all_logs(),
{
}

} // verus!
