//! The catalog of images, the per-service state and the orchestrator's registry.
use vstd::prelude::*;
use crate::manifest::{service_images, manifest_images, pairs_view, ManifestError, Yaml};
use crate::pattern::{regex_compiles, InvalidPattern, Pattern};

verus! {

/// How to tell that a container running an image has finished starting:
/// its logs hold a match of `log_regex_to_wait_for` within `timeout_ms` milliseconds.
pub struct Image {
    pub name: &'static str,
    pub log_regex_to_wait_for: &'static str,
    pub timeout_ms: u64,
}

/// The state of one running service.
pub struct Service {
    name: String,
    image: String,
    pattern: Pattern,
    timeout_ms: u64,
}

impl Service {
    pub closed spec fn spec_name(&self) -> Seq<char> {
        self.name@
    }

    pub closed spec fn spec_pattern(&self) -> Seq<char> {
        self.pattern@
    }

    pub closed spec fn spec_image(&self) -> Seq<char> {
        self.image@
    }

    pub closed spec fn spec_timeout_ms(&self) -> nat {
        self.timeout_ms as nat
    }

    fn new(name: String, image: &Image) -> (r: Result<Service, InvalidPattern>)
        ensures
            r is Ok <==> regex_compiles(image.log_regex_to_wait_for@),
            r matches Ok(s) ==> s.spec_name() == name@ && s.spec_image() == image.name@
                && s.spec_pattern() == image.log_regex_to_wait_for@
                && s.spec_timeout_ms() == image.timeout_ms,
    {
        match Pattern::new(image.log_regex_to_wait_for) {
            Ok(pattern) => Ok(
                Service {
                    name,
                    image: String::from_str(image.name),
                    pattern,
                    timeout_ms: image.timeout_ms,
                },
            ),
            Err(e) => Err(e),
        }
    }

    pub fn name(&self) -> (r: &str)
        ensures
            r@ == self.spec_name(),
    {
        self.name.as_str()
    }

    pub fn pattern(&self) -> (r: &Pattern)
        ensures
            r@ == self.spec_pattern(),
    {
        &self.pattern
    }

    pub fn image(&self) -> (r: &str)
        ensures
            r@ == self.spec_image(),
    {
        self.image.as_str()
    }

    pub fn timeout_ms(&self) -> (r: u64)
        ensures
            r as nat == self.spec_timeout_ms(),
    {
        self.timeout_ms
    }
}

/// Why an environment cannot be brought up.
#[derive(Debug, Clone, PartialEq, Eq)]
pub enum SetupError {
    /// The manifest does not have the supported shape.
    Manifest(ManifestError),
    /// A service uses an image that the catalog has no entry for.
    UnknownImage { image: String },
    /// The catalog entry of an image holds a pattern the regex engine rejects.
    InvalidPattern { image: String, pattern: String },
}

/// `k` is the first catalog entry named `image`.
pub open spec fn first_entry(catalog: Seq<Image>, image: Seq<char>, k: int) -> bool {
    &&& 0 <= k < catalog.len()
    &&& catalog[k].name@ == image
    &&& forall|j: int| 0 <= j < k ==> catalog[j].name@ != image
}

/// The image resolves to a catalog entry whose pattern compiles.
pub open spec fn resolves(catalog: Seq<Image>, image: Seq<char>) -> bool {
    exists|k: int| first_entry(catalog, image, k) && regex_compiles(#[trigger] catalog[k].log_regex_to_wait_for@)
}

/// Resolving `image` against the catalog fails with `e`.
pub open spec fn resolve_fails_with(catalog: Seq<Image>, image: Seq<char>, e: SetupError) -> bool {
    match e {
        SetupError::UnknownImage { image: name } => name@ == image && forall|k: int|
            0 <= k < catalog.len() ==> #[trigger] catalog[k].name@ != image,
        SetupError::InvalidPattern { image: name, pattern } => name@ == image && exists|k: int|
            first_entry(catalog, image, k) && pattern@ == #[trigger] catalog[k].log_regex_to_wait_for@
                && !regex_compiles(pattern@),
        _ => false,
    }
}

/// `s` is the fresh state of service `name`, set up from catalog entry `image`.
pub open spec fn fresh_service(s: Service, name: Seq<char>, image: Image) -> bool {
    &&& s.spec_name() == name
    &&& s.spec_pattern() == image.log_regex_to_wait_for@
    &&& s.spec_image() == image.name@
    &&& s.spec_timeout_ms() == image.timeout_ms
}

/// `s` is the fresh state of service `name`, set up from the first catalog entry of `image`.
pub open spec fn set_up_from(catalog: Seq<Image>, s: Service, name: Seq<char>, image: Seq<char>) -> bool {
    exists|k: int| first_entry(catalog, image, k) && fresh_service(s, name, #[trigger] catalog[k])
}

/// The outcome of resolving every (service, image) pair, in order, against the catalog.
pub open spec fn resolved(
    catalog: Seq<Image>,
    pairs: Seq<(Seq<char>, Seq<char>)>,
    r: Result<Seq<Service>, SetupError>,
) -> bool {
    &&& r is Ok <==> forall|i: int| 0 <= i < pairs.len() ==> resolves(catalog, #[trigger] pairs[i].1)
    &&& r matches Ok(v) ==> v.len() == pairs.len() && forall|i: int| 0 <= i < pairs.len() ==>
        set_up_from(catalog, #[trigger] v[i], pairs[i].0, pairs[i].1)
    &&& r matches Err(e) ==> exists|i: int| 0 <= i < pairs.len()
        && (forall|j: int| 0 <= j < i ==> resolves(catalog, #[trigger] pairs[j].1))
        && resolve_fails_with(catalog, #[trigger] pairs[i].1, e)
}

/// A service whose image no catalog entry names makes the set-up fail; as
/// the call that starts the services comes from a set-up registry, nothing
/// is started.
pub proof fn lemma_unknown_image_fails_setup(
    catalog: Seq<Image>,
    pairs: Seq<(Seq<char>, Seq<char>)>,
    r: Result<Seq<Service>, SetupError>,
    i: int,
)
    requires
        resolved(catalog, pairs, r),
        0 <= i < pairs.len(),
        forall|k: int| 0 <= k < catalog.len() ==> #[trigger] catalog[k].name@ != pairs[i].1,
    ensures
        r is Err,
{
    if r is Ok {
        assert(resolves(catalog, pairs[i].1));
        let k = choose|k: int| first_entry(catalog, pairs[i].1, k) && regex_compiles(#[trigger] catalog[k].log_regex_to_wait_for@);
        assert(catalog[k].name@ == pairs[i].1);
    }
}

pub open spec fn services_result_view(r: Result<Vec<Service>, SetupError>) -> Result<Seq<Service>, SetupError> {
    match r {
        Ok(v) => Ok(v@),
        Err(e) => Err(e),
    }
}

/// Index of the first catalog entry named `image`.
fn find_image(catalog: &[Image], image: &String) -> (r: Option<usize>)
    ensures
        match r {
            Some(k) => first_entry(catalog@, image@, k as int),
            None => forall|k: int| 0 <= k < catalog@.len() ==> #[trigger] catalog@[k].name@ != image@,
        },
{
    let mut k: usize = 0;
    while k < catalog.len()
        invariant
            k <= catalog@.len(),
            forall|j: int| 0 <= j < k ==> #[trigger] catalog@[j].name@ != image@,
        decreases catalog@.len() - k,
    {
        let name = String::from_str(catalog[k].name);
        if name.eq(image) {
            return Some(k);
        }
        k = k + 1;
    }
    None
}

/// One service state per (service, image) pair, in order, each set up from the
/// first catalog entry of its image.
fn get_services(image_waiters: &[Image], pairs: &Vec<(String, String)>) -> (r: Result<
    Vec<Service>,
    SetupError,
>)
    ensures
        resolved(image_waiters@, pairs_view(pairs@), services_result_view(r)),
{
    let ghost pv = pairs_view(pairs@);
    let mut out: Vec<Service> = Vec::new();
    let mut i: usize = 0;
    while i < pairs.len()
        invariant
            i <= pairs@.len(),
            pv == pairs_view(pairs@),
            out@.len() == i,
            forall|j: int| 0 <= j < i ==> resolves(image_waiters@, #[trigger] pv[j].1),
            forall|j: int| 0 <= j < i ==> set_up_from(image_waiters@, #[trigger] out@[j], pv[j].0, pv[j].1),
        decreases pairs@.len() - i,
    {
        let image = &pairs[i].1;
        assert(pv[i as int] == (pairs@[i as int].0@, pairs@[i as int].1@));
        let k = match find_image(image_waiters, image) {
            Some(k) => k,
            None => {
                let e = SetupError::UnknownImage { image: image.clone() };
                assert(resolve_fails_with(image_waiters@, pv[i as int].1, e));
                return Err(e);
            },
        };
        match Service::new(pairs[i].0.clone(), &image_waiters[k]) {
            Ok(s) => {
                assert(resolves(image_waiters@, pv[i as int].1));
                let ghost before = out@;
                out.push(s);
                assert(fresh_service(out@[i as int], pv[i as int].0, image_waiters@[k as int]));
                assert(set_up_from(image_waiters@, out@[i as int], pv[i as int].0, pv[i as int].1));
                assert forall|j: int| 0 <= j <= i implies set_up_from(image_waiters@, #[trigger] out@[j], pv[j].0, pv[j].1) by {
                    if j < i {
                        assert(out@[j] == before[j]);
                    }
                }
            },
            Err(_) => {
                let e = SetupError::InvalidPattern {
                    image: image.clone(),
                    pattern: String::from_str(image_waiters[k].log_regex_to_wait_for),
                };
                assert(resolve_fails_with(image_waiters@, pv[i as int].1, e));
                return Err(e);
            },
        }
        i = i + 1;
    }
    assert(pv.len() == pairs@.len());
    Ok(out)
}

pub open spec fn strings_view(v: Seq<String>) -> Seq<Seq<char>> {
    v.map_values(|s: String| s@)
}

/// The arguments of a runtime call on the environment of the manifest at `path`.
pub open spec fn compose_args(path: Seq<char>, rest: Seq<Seq<char>>) -> Seq<Seq<char>> {
    seq!["compose"@, "-f"@, path] + rest
}

/// `compose -f <path>` followed by `rest`.
pub(crate) fn compose_args_with(path: &str, rest: Vec<String>) -> (r: Vec<String>)
    ensures
        strings_view(r@) == compose_args(path@, strings_view(rest@)),
{
    let mut r: Vec<String> = Vec::new();
    r.push(String::from_str("compose"));
    r.push(String::from_str("-f"));
    r.push(String::from_str(path));
    let mut i: usize = 0;
    while i < rest.len()
        invariant
            i <= rest@.len(),
            strings_view(r@) == compose_args(path@, strings_view(rest@).subrange(0, i as int)),
        decreases rest@.len() - i,
    {
        let ghost before = r@;
        let c = rest[i].clone();
        r.push(c);
        proof {
            assert(strings_view(r@) =~= strings_view(before).push(rest@[i as int]@));
            assert(strings_view(rest@).subrange(0, i + 1) =~= strings_view(rest@).subrange(0, i as int).push(rest@[i as int]@));
            assert(strings_view(r@) =~= compose_args(path@, strings_view(rest@).subrange(0, i + 1)));
        }
        i = i + 1;
    }
    assert(strings_view(rest@).subrange(0, rest@.len() as int) =~= strings_view(rest@));
    r
}

/// The two runtime calls that tear down the environment of the manifest at
/// `file_path`, in order: a forced kill, then a removal with volumes.
pub fn clean_up(file_path: &str) -> (r: (Vec<String>, Vec<String>))
    ensures
        strings_view(r.0@) == compose_args(file_path@, seq!["kill"@]),
        strings_view(r.1@) == compose_args(file_path@, seq!["down"@, "-v"@]),
{
    let kill = vec![String::from_str("kill")];
    assert(strings_view(kill@) =~= seq!["kill"@]);
    let down = vec![String::from_str("down"), String::from_str("-v")];
    assert(strings_view(down@) =~= seq!["down"@, "-v"@]);
    (compose_args_with(file_path, kill), compose_args_with(file_path, down))
}

fn holds_string(v: &Vec<String>, s: &str) -> (r: bool)
    ensures
        r == strings_view(v@).contains(s@),
{
    let wanted = String::from_str(s);
    let mut i: usize = 0;
    while i < v.len()
        invariant
            i <= v@.len(),
            wanted@ == s@,
            forall|j: int| 0 <= j < i ==> #[trigger] v@[j]@ != s@,
        decreases v@.len() - i,
    {
        if v[i].eq(&wanted) {
            assert(strings_view(v@)[i as int] == s@);
            return true;
        }
        i = i + 1;
    }
    proof {
        if strings_view(v@).contains(s@) {
            let j = choose|j: int| 0 <= j < v@.len() && #[trigger] strings_view(v@)[j] == s@;
            assert(v@[j]@ == s@);
        }
    }
    false
}

/// A compose environment brought up for a test: the manifest it was started
/// from and the state of each of its services.
pub struct DockerCompose {
    file_path: String,
    services: Vec<Service>,
    logs_seen: Vec<usize>,
}

impl DockerCompose {
    pub closed spec fn spec_file_path(&self) -> Seq<char> {
        self.file_path@
    }

    pub closed spec fn spec_services(&self) -> Seq<Service> {
        self.services@
    }

    /// For each service, how many of its readiness matches have been consumed.
    pub closed spec fn spec_logs_seen(&self) -> Seq<nat> {
        self.logs_seen@.map_values(|n: usize| n as nat)
    }

    pub closed spec fn wf(&self) -> bool {
        self.logs_seen@.len() == self.services@.len()
    }

    /// Sets up the state of every service of `manifest` (found at `yaml_path`)
    /// from the catalog `image_waiters`, before any container is started.
    /// No readiness match is consumed yet.
    pub fn new(image_waiters: &[Image], yaml_path: &str, manifest: &Yaml) -> (r: Result<
        DockerCompose,
        SetupError,
    >)
        ensures
            manifest_images(*manifest) matches Err(e) ==> r == Err::<DockerCompose, _>(SetupError::Manifest(e)),
            manifest_images(*manifest) matches Ok(pairs) ==> resolved(
                image_waiters@,
                pairs,
                match r {
                    Ok(c) => Ok(c.spec_services()),
                    Err(e) => Err(e),
                },
            ),
            r matches Ok(c) ==> c.wf() && c.spec_file_path() == yaml_path@
                && c.spec_logs_seen() == Seq::new(c.spec_services().len(), |i: int| 0nat),
    {
        let pairs = match service_images(manifest) {
            Ok(pairs) => pairs,
            Err(e) => return Err(SetupError::Manifest(e)),
        };
        let services = match get_services(image_waiters, &pairs) {
            Ok(services) => services,
            Err(e) => return Err(e),
        };
        let mut logs_seen: Vec<usize> = Vec::new();
        let mut i: usize = 0;
        while i < services.len()
            invariant
                i <= services@.len(),
                logs_seen@ == Seq::new(i as nat, |j: int| 0usize),
            decreases services@.len() - i,
        {
            logs_seen.push(0);
            assert(logs_seen@ =~= Seq::new((i + 1) as nat, |j: int| 0usize));
            i = i + 1;
        }
        let r = DockerCompose { file_path: String::from_str(yaml_path), services, logs_seen };
        assert(r.spec_logs_seen() =~= Seq::new(r.spec_services().len(), |i: int| 0nat));
        Ok(r)
    }

    pub fn file_path(&self) -> (r: &str)
        ensures
            r@ == self.spec_file_path(),
    {
        self.file_path.as_str()
    }

    pub fn services(&self) -> (r: &Vec<Service>)
        ensures
            r@ == self.spec_services(),
    {
        &self.services
    }

    /// How many readiness matches of the service at `index` have been consumed.
    pub fn logs_seen(&self, index: usize) -> (r: usize)
        requires
            self.wf(),
            index < self.spec_services().len(),
        ensures
            r as nat == self.spec_logs_seen()[index as int],
    {
        self.logs_seen[index]
    }

    /// Index of the first service named `service_name`.
    pub fn find_service(&self, service_name: &str) -> (r: Option<usize>)
        ensures
            match r {
                Some(i) => i < self.spec_services().len() && self.spec_services()[i as int].spec_name()
                    == service_name@ && forall|j: int| 0 <= j < i ==> #[trigger] self.spec_services()[j].spec_name() != service_name@,
                None => forall|j: int| 0 <= j < self.spec_services().len() ==> #[trigger] self.spec_services()[j].spec_name() != service_name@,
            },
    {
        let wanted = String::from_str(service_name);
        let mut i: usize = 0;
        while i < self.services.len()
            invariant
                i <= self.services@.len(),
                wanted@ == service_name@,
                forall|j: int| 0 <= j < i ==> #[trigger] self.services@[j].spec_name() != service_name@,
            decreases self.services@.len() - i,
        {
            if self.services[i].name.eq(&wanted) {
                return Some(i);
            }
            i = i + 1;
        }
        None
    }

    /// Marks one more readiness match as consumed for each service in `targets`.
    pub(crate) fn consume_matches(&mut self, targets: &Vec<usize>)
        requires
            old(self).wf(),
            targets@.no_duplicates(),
            forall|j: int| 0 <= j < targets@.len() ==> #[trigger] targets@[j] < old(self).spec_services().len(),
            forall|j: int| 0 <= j < targets@.len() ==> #[trigger] old(self).spec_logs_seen()[targets@[j] as int] < usize::MAX,
        ensures
            final(self).wf(),
            final(self).spec_services() == old(self).spec_services(),
            final(self).spec_file_path() == old(self).spec_file_path(),
            final(self).spec_logs_seen().len() == old(self).spec_logs_seen().len(),
            forall|i: int| 0 <= i < old(self).spec_logs_seen().len() ==> #[trigger] final(self).spec_logs_seen()[i]
                == old(self).spec_logs_seen()[i] + if targets@.contains(i as usize) { 1nat } else { 0nat },
    {
        let ghost start = self.logs_seen@;
        let ghost services = self.services@;
        let ghost path = self.file_path@;
        assert forall|j: int| 0 <= j < targets@.len() implies #[trigger] start[targets@[j] as int] < usize::MAX by {
            assert(old(self).spec_logs_seen()[targets@[j] as int] == start[targets@[j] as int] as nat);
        }
        let _n = self.logs_seen.len();
        let mut k: usize = 0;
        while k < targets.len()
            invariant
                k <= targets@.len(),
                start.len() <= usize::MAX,
                self.services@ == services,
                self.file_path@ == path,
                services == old(self).spec_services(),
                path == old(self).spec_file_path(),
                start == old(self).logs_seen@,
                self.logs_seen@.len() == start.len(),
                self.services@.len() == start.len(),
                targets@.no_duplicates(),
                forall|j: int| 0 <= j < targets@.len() ==> #[trigger] targets@[j] < start.len(),
                forall|j: int| 0 <= j < targets@.len() ==> #[trigger] start[targets@[j] as int] < usize::MAX,
                forall|i: int| 0 <= i < start.len() ==> #[trigger] self.logs_seen@[i]
                    == start[i] + if targets@.subrange(0, k as int).contains(i as usize) { 1int } else { 0int },
            decreases targets@.len() - k,
        {
            let t = targets[k];
            proof {
                assert(!targets@.subrange(0, k as int).contains(t)) by {
                    if targets@.subrange(0, k as int).contains(t) {
                        let j = choose|j: int| 0 <= j < k && #[trigger] targets@.subrange(0, k as int)[j] == t;
                        assert(targets@[j] == targets@[k as int]);
                    }
                }
                assert(self.logs_seen@[t as int] == start[t as int]);
            }
            let v = self.logs_seen[t];
            let ghost prev = self.logs_seen@;
            self.logs_seen.set(t, v + 1);
            proof {
                assert forall|i: int| 0 <= i < start.len() implies #[trigger] self.logs_seen@[i]
                    == start[i] + if targets@.subrange(0, k + 1).contains(i as usize) { 1int } else { 0int } by {
                    assert(targets@.subrange(0, k + 1) =~= targets@.subrange(0, k as int).push(t));
                    let x = i as usize;
                    assert(x as int == i);
                    assert(self.logs_seen@[i] == if i == t as int { (v + 1) as usize } else { prev[i] });
                    if i != t as int {
                        if targets@.subrange(0, k + 1).contains(x) {
                            let j = choose|j: int| 0 <= j < k + 1 && #[trigger] targets@.subrange(0, k + 1)[j] == x;
                            assert(targets@.subrange(0, k + 1)[j] == targets@[j]);
                            assert(j != k);
                            assert(targets@.subrange(0, k as int)[j] == x);
                        }
                        if targets@.subrange(0, k as int).contains(x) {
                            let j = choose|j: int| 0 <= j < k && #[trigger] targets@.subrange(0, k as int)[j] == x;
                            assert(targets@.subrange(0, k + 1)[j] == x);
                        }
                    } else {
                        assert(targets@.subrange(0, k + 1)[k as int] == x);
                    }
                }
            }
            k = k + 1;
        }
        assert(targets@.subrange(0, targets@.len() as int) =~= targets@);
        assert forall|i: int| 0 <= i < old(self).spec_logs_seen().len() implies #[trigger] self.spec_logs_seen()[i]
            == old(self).spec_logs_seen()[i] + if targets@.contains(i as usize) { 1nat } else { 0nat } by {
            assert(self.spec_logs_seen()[i] == self.logs_seen@[i] as nat);
            assert(old(self).spec_logs_seen()[i] == start[i] as nat);
        }
    }

    /// The distinct images of the services, in order of first use: what has
    /// to exist before the services are started.
    pub fn images(&self) -> (r: Vec<String>)
        ensures
            strings_view(r@).no_duplicates(),
            forall|x: Seq<char>| #[trigger] strings_view(r@).contains(x) <==> exists|i: int|
                0 <= i < self.spec_services().len() && #[trigger] self.spec_services()[i].spec_image() == x,
    {
        let mut out: Vec<String> = Vec::new();
        let mut i: usize = 0;
        while i < self.services.len()
            invariant
                i <= self.services@.len(),
                strings_view(out@).no_duplicates(),
                forall|x: Seq<char>| #[trigger] strings_view(out@).contains(x) <==> exists|j: int|
                    0 <= j < i && #[trigger] self.services@[j].spec_image() == x,
            decreases self.services@.len() - i,
        {
            let image = self.services[i].image();
            let ghost before = strings_view(out@);
            if !holds_string(&out, image) {
                out.push(String::from_str(image));
                assert(strings_view(out@) =~= before.push(image@));
            }
            proof {
                assert forall|x: Seq<char>| #[trigger] strings_view(out@).contains(x) <==> exists|j: int|
                    0 <= j < i + 1 && #[trigger] self.services@[j].spec_image() == x by {
                    if strings_view(out@).contains(x) && x != image@ {
                        assert(before.contains(x)) by {
                            let k = choose|k: int| 0 <= k < strings_view(out@).len() && #[trigger] strings_view(out@)[k] == x;
                            assert(before[k] == x);
                        }
                    }
                    if x == image@ {
                        assert(self.services@[i as int].spec_image() == x);
                        if before.contains(x) {
                            let k = choose|k: int| 0 <= k < before.len() && #[trigger] before[k] == x;
                            assert(strings_view(out@)[k] == x);
                        } else {
                            assert(strings_view(out@)[before.len() as int] == x);
                        }
                    }
                    if exists|j: int| 0 <= j < i && #[trigger] self.services@[j].spec_image() == x {
                        assert(before.contains(x));
                        let k = choose|k: int| 0 <= k < before.len() && #[trigger] before[k] == x;
                        assert(strings_view(out@)[k] == x);
                    }
                }
            }
            i = i + 1;
        }
        assert forall|x: Seq<char>| #[trigger] strings_view(out@).contains(x) <==> exists|i: int|
            0 <= i < self.spec_services().len() && #[trigger] self.spec_services()[i].spec_image() == x by {
            if exists|j: int| 0 <= j < self.services@.len() && #[trigger] self.services@[j].spec_image() == x {
                let j = choose|j: int| 0 <= j < self.services@.len() && #[trigger] self.services@[j].spec_image() == x;
                assert(self.spec_services()[j].spec_image() == x);
            }
            if exists|j: int| 0 <= j < self.spec_services().len() && #[trigger] self.spec_services()[j].spec_image() == x {
                let j = choose|j: int| 0 <= j < self.spec_services().len() && #[trigger] self.spec_services()[j].spec_image() == x;
                assert(self.services@[j].spec_image() == x);
            }
        }
        out
    }

    /// The runtime call that starts every service in the background.
    pub fn up(&self) -> (r: Vec<String>)
        ensures
            strings_view(r@) == compose_args(self.spec_file_path(), seq!["up"@, "-d"@]),
    {
        let rest = vec![String::from_str("up"), String::from_str("-d")];
        assert(strings_view(rest@) =~= seq!["up"@, "-d"@]);
        compose_args_with(&self.file_path, rest)
    }

    /// The runtime call that stops the service named `service_name`.
    pub fn stop_service(&self, service_name: &str) -> (r: Vec<String>)
        ensures
            strings_view(r@) == compose_args(self.spec_file_path(), seq!["stop"@, service_name@]),
    {
        let rest = vec![String::from_str("stop"), String::from_str(service_name)];
        assert(strings_view(rest@) =~= seq!["stop"@, service_name@]);
        compose_args_with(&self.file_path, rest)
    }

    /// The runtime call that kills the service named `service_name`.
    pub fn kill_service(&self, service_name: &str) -> (r: Vec<String>)
        ensures
            strings_view(r@) == compose_args(self.spec_file_path(), seq!["kill"@, service_name@]),
    {
        let rest = vec![String::from_str("kill"), String::from_str(service_name)];
        assert(strings_view(rest@) =~= seq!["kill"@, service_name@]);
        compose_args_with(&self.file_path, rest)
    }
}

} // verus!
