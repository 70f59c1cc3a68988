//! Reading the service-to-image table out of a compose manifest.
use vstd::prelude::*;

verus! {

/// The parts of a YAML document that the manifest reader looks at.
/// Every other kind of node (numbers, sequences, null, ...) is `Other`.
#[derive(Debug)]
pub enum Yaml {
    Text(String),
    Mapping(Vec<(Yaml, Yaml)>),
    Other,
}

/// Ways in which a manifest can fall outside the shape this reader supports.
#[derive(Debug, Clone, PartialEq, Eq)]
pub enum ManifestError {
    /// The document is not a mapping.
    RootNotMapping,
    /// The document has no `services` key.
    MissingServices,
    /// `services` is not a mapping.
    ServicesNotMapping,
    /// A key under `services` is not a string.
    ServiceNameNotText,
    /// The entry of this service is not a mapping.
    ServiceNotMapping { service: String },
    /// The entry of this service has no `image` key.
    MissingImage { service: String },
    /// The `image` of this service is not a string.
    ImageNotText { service: String },
}

pub open spec fn is_key(node: Yaml, key: Seq<char>) -> bool {
    node matches Yaml::Text(s) && s@ == key
}

/// The value of the first entry whose key is the string `key`.
pub open spec fn lookup(entries: Seq<(Yaml, Yaml)>, key: Seq<char>) -> Option<Yaml>
    decreases entries.len(),
{
    if entries.len() == 0 {
        None
    } else if is_key(entries[0].0, key) {
        Some(entries[0].1)
    } else {
        lookup(entries.drop_first(), key)
    }
}

/// The (service, image) pair of one entry under `services`.
pub open spec fn entry_image(entry: (Yaml, Yaml)) -> Result<(Seq<char>, Seq<char>), ManifestError> {
    match entry.0 {
        Yaml::Text(name) => match entry.1 {
            Yaml::Mapping(fields) => match lookup(fields@, "image"@) {
                Some(Yaml::Text(image)) => Ok((name@, image@)),
                Some(_) => Err(ManifestError::ImageNotText { service: name }),
                None => Err(ManifestError::MissingImage { service: name }),
            },
            _ => Err(ManifestError::ServiceNotMapping { service: name }),
        },
        _ => Err(ManifestError::ServiceNameNotText),
    }
}

/// The pairs of all entries, in order; the first faulty entry decides the error.
pub open spec fn entries_images(entries: Seq<(Yaml, Yaml)>) -> Result<
    Seq<(Seq<char>, Seq<char>)>,
    ManifestError,
>
    decreases entries.len(),
{
    if entries.len() == 0 {
        Ok(Seq::empty())
    } else {
        match entry_image(entries[0]) {
            Err(e) => Err(e),
            Ok(pair) => match entries_images(entries.drop_first()) {
                Err(e) => Err(e),
                Ok(rest) => Ok(seq![pair] + rest),
            },
        }
    }
}

/// The service-to-image table of a manifest document.
pub open spec fn manifest_images(doc: Yaml) -> Result<Seq<(Seq<char>, Seq<char>)>, ManifestError> {
    match doc {
        Yaml::Mapping(root) => match lookup(root@, "services"@) {
            Some(Yaml::Mapping(services)) => entries_images(services@),
            Some(_) => Err(ManifestError::ServicesNotMapping),
            None => Err(ManifestError::MissingServices),
        },
        _ => Err(ManifestError::RootNotMapping),
    }
}

pub open spec fn pairs_view(v: Seq<(String, String)>) -> Seq<(Seq<char>, Seq<char>)> {
    v.map_values(|p: (String, String)| (p.0@, p.1@))
}

pub open spec fn images_result_view(r: Result<Vec<(String, String)>, ManifestError>) -> Result<
    Seq<(Seq<char>, Seq<char>)>,
    ManifestError,
> {
    match r {
        Ok(v) => Ok(pairs_view(v@)),
        Err(e) => Err(e),
    }
}

/// Index of the first entry whose key is the string `key`.
fn find_key(entries: &Vec<(Yaml, Yaml)>, key: &str) -> (r: Option<usize>)
    ensures
        match r {
            Some(i) => i < entries@.len() && lookup(entries@, key@) == Some(entries@[i as int].1),
            None => lookup(entries@, key@) is None,
        },
{
    let wanted = String::from_str(key);
    let mut i: usize = 0;
    assert(entries@.subrange(0, entries@.len() as int) =~= entries@);
    while i < entries.len()
        invariant
            i <= entries@.len(),
            wanted@ == key@,
            lookup(entries@, key@) == lookup(entries@.subrange(i as int, entries@.len() as int), key@),
        decreases entries@.len() - i,
    {
        let ghost rest = entries@.subrange(i as int, entries@.len() as int);
        assert(rest.drop_first() =~= entries@.subrange(i + 1, entries@.len() as int));
        assert(rest[0] == entries@[i as int]);
        if let Yaml::Text(s) = &entries[i].0 {
            if s.eq(&wanted) {
                assert(is_key(rest[0].0, key@));
                assert(lookup(rest, key@) == Some(rest[0].1));
                return Some(i);
            }
        }
        i = i + 1;
    }
    None
}

/// The (service, image) pair of one entry under `services`.
fn read_entry(entry: &(Yaml, Yaml)) -> (r: Result<(String, String), ManifestError>)
    ensures
        match r {
            Ok(p) => entry_image(*entry) == Ok::<_, ManifestError>((p.0@, p.1@)),
            Err(e) => entry_image(*entry) == Err::<(Seq<char>, Seq<char>), _>(e),
        },
{
    match &entry.0 {
        Yaml::Text(name) => match &entry.1 {
            Yaml::Mapping(fields) => match find_key(fields, "image") {
                Some(i) => match &fields[i].1 {
                    Yaml::Text(image) => Ok((name.clone(), image.clone())),
                    _ => Err(ManifestError::ImageNotText { service: name.clone() }),
                },
                None => Err(ManifestError::MissingImage { service: name.clone() }),
            },
            _ => Err(ManifestError::ServiceNotMapping { service: name.clone() }),
        },
        _ => Err(ManifestError::ServiceNameNotText),
    }
}

/// Every (service, image) pair under `services`, in document order.
pub fn service_images(doc: &Yaml) -> (r: Result<Vec<(String, String)>, ManifestError>)
    ensures
        images_result_view(r) == manifest_images(*doc),
{
    let root = match doc {
        Yaml::Mapping(root) => root,
        _ => return Err(ManifestError::RootNotMapping),
    };
    let services = match find_key(root, "services") {
        Some(i) => match &root[i].1 {
            Yaml::Mapping(services) => services,
            _ => return Err(ManifestError::ServicesNotMapping),
        },
        None => return Err(ManifestError::MissingServices),
    };
    let mut out: Vec<(String, String)> = Vec::new();
    let mut i: usize = 0;
    proof {
        assert(services@.subrange(0, services@.len() as int) =~= services@);
        match entries_images(services@) {
            Ok(all) => assert(pairs_view(out@) + all =~= all),
            Err(_) => {},
        }
    }
    while i < services.len()
        invariant
            i <= services@.len(),
            manifest_images(*doc) == entries_images(services@),
            entries_images(services@) == match entries_images(
                services@.subrange(i as int, services@.len() as int),
            ) {
                Ok(rest) => Ok(pairs_view(out@) + rest),
                Err(e) => Err(e),
            },
        decreases services@.len() - i,
    {
        let ghost rest = services@.subrange(i as int, services@.len() as int);
        assert(rest.drop_first() =~= services@.subrange(i + 1, services@.len() as int));
        let pair = read_entry(&services[i]);
        match pair {
            Ok(p) => {
                let ghost before = pairs_view(out@);
                out.push(p);
                proof {
                    assert(pairs_view(out@) =~= before + seq![(p.0@, p.1@)]);
                    match entries_images(rest.drop_first()) {
                        Ok(tail) => {
                            assert(before + (seq![(p.0@, p.1@)] + tail) =~= pairs_view(out@) + tail);
                        },
                        Err(_) => {},
                    }
                }
            },
            Err(e) => return Err(e),
        }
        i = i + 1;
    }
    proof {
        assert(services@.subrange(i as int, services@.len() as int) =~= Seq::<(Yaml, Yaml)>::empty());
        assert(pairs_view(out@) + Seq::<(Seq<char>, Seq<char>)>::empty() =~= pairs_view(out@));
    }
    Ok(out)
}

} // verus!
