//! TLS material: which certificate and key the server uses.

use vstd::prelude::*;
use tokio_rustls::TlsAcceptor;
use crate::outside;

verus! {

/// How the reading of a certificate file and a key file ended.
#[derive(Debug)]
pub struct FilePair {
    pub cert: Result<Vec<u8>, String>,
    pub key: Result<Vec<u8>, String>,
}

/// Why no TLS material comes out.
#[derive(Debug)]
pub enum TlsError {
    /// The certificate file could not be read.
    CertUnread(String),
    /// The certificate file holds no certificate.
    NoCertificates,
    /// The key file could not be read.
    KeyUnread(String),
    /// The key file holds no private key.
    NoPrivateKeys,
    /// No certificate could be provisioned.
    Unprovisioned(String),
    /// The TLS library does not take the certificate and the key.
    Rejected(rustls::Error),
}

impl TlsError {
    /// The text of an error; the error of the TLS library has its own.
    pub open spec fn text(self) -> Option<Seq<char>> {
        match self {
            TlsError::CertUnread(cause) => Some(cause@),
            TlsError::NoCertificates => Some("No certificates found in cert file"@),
            TlsError::KeyUnread(cause) => Some(cause@),
            TlsError::NoPrivateKeys => Some("No private keys found in key file"@),
            TlsError::Unprovisioned(cause) => Some(cause@),
            TlsError::Rejected(_) => None,
        }
    }

    /// The text of an error; the error of the TLS library has its own.
    pub fn message(&self) -> (message: Option<String>)
        ensures
            match message {
                Some(text) => self.text() == Some(text@),
                None => self.text() is None,
            },
    {
        match self {
            TlsError::CertUnread(cause) => Some(cause.clone()),
            TlsError::NoCertificates => Some("No certificates found in cert file".to_owned()),
            TlsError::KeyUnread(cause) => Some(cause.clone()),
            TlsError::NoPrivateKeys => Some("No private keys found in key file".to_owned()),
            TlsError::Unprovisioned(cause) => Some(cause.clone()),
            TlsError::Rejected(_) => None,
        }
    }
}

/// A certificate chain, in DER and never empty, and its private key in PKCS #8.
pub struct TlsConfig {
    certs: Vec<Vec<u8>>,
    key: Vec<u8>,
}

/// What TLS material holds.
#[verifier::ext_equal]
pub struct TlsView {
    pub certs: Seq<Seq<u8>>,
    pub key: Seq<u8>,
}

impl View for TlsConfig {
    type V = TlsView;

    closed spec fn view(&self) -> TlsView {
        TlsView { certs: outside::each_bytes(self.certs@), key: self.key@ }
    }
}

/// The sections of a PEM file that could be read, in order.
pub open spec fn readable(sections: Seq<Option<Seq<u8>>>) -> Seq<Seq<u8>>
    decreases sections.len(),
{
    if sections.len() == 0 {
        Seq::empty()
    } else {
        match sections.last() {
            Some(der) => readable(sections.drop_last()).push(der),
            None => readable(sections.drop_last()),
        }
    }
}

/// The sections of a PEM file that could be read, in order.
pub fn readable_sections(sections: Vec<Option<Vec<u8>>>) -> (found: Vec<Vec<u8>>)
    ensures
        outside::each_bytes(found@) == readable(outside::section_bytes(sections@)),
{
    let ghost all = outside::section_bytes(sections@);
    let mut found: Vec<Vec<u8>> = Vec::new();
    let mut i: usize = 0;
    assert(outside::each_bytes(found@) =~= readable(all.take(0)));
    while i < sections.len()
        invariant
            i <= sections@.len(),
            all == outside::section_bytes(sections@),
            outside::each_bytes(found@) == readable(all.take(i as int)),
        decreases sections@.len() - i,
    {
        assert(all.take(i + 1).drop_last() == all.take(i as int));
        if let Some(der) = &sections[i] {
            let copy = der.clone();
            assert(copy@ == der@);
            let ghost before = found@;
            found.push(copy);
            assert(outside::each_bytes(found@) =~= outside::each_bytes(before).push(der@));
        }
        i = i + 1;
    }
    assert(all.take(i as int) == all);
    found
}

/// The TLS material of a certificate file and a key file, given the sections that were found in
/// them: every certificate, and the first key.
pub open spec fn pair_material(
    pair: FilePair,
    certs: Seq<Option<Seq<u8>>>,
    keys: Seq<Option<Seq<u8>>>,
) -> Result<TlsView, TlsError> {
    match pair.cert {
        Err(cause) => Err(TlsError::CertUnread(cause)),
        Ok(_) => if readable(certs).len() == 0 {
            Err(TlsError::NoCertificates)
        } else {
            match pair.key {
                Err(cause) => Err(TlsError::KeyUnread(cause)),
                Ok(_) => if readable(keys).len() == 0 {
                    Err(TlsError::NoPrivateKeys)
                } else {
                    Ok(TlsView { certs: readable(certs), key: readable(keys)[0] })
                },
            }
        },
    }
}

/// The TLS material of a certificate file and a key file.
pub open spec fn material_of(pair: FilePair) -> Result<TlsView, TlsError> {
    pair_material(pair, outside::pem_certs(pair.cert->Ok_0@), outside::pem_pkcs8_keys(pair.key->Ok_0@))
}

/// What came out holds what is expected, or fails as is expected.
pub open spec fn agrees(result: Result<TlsConfig, TlsError>, expected: Result<TlsView, TlsError>) -> bool {
    match result {
        Ok(config) => expected == Ok::<TlsView, TlsError>(config@),
        Err(error) => expected == Err::<TlsView, TlsError>(error),
    }
}

impl TlsConfig {
    #[verifier::type_invariant]
    spec fn well_formed(self) -> bool {
        self.certs@.len() > 0
    }

    /// The certificates, first the server's own.
    pub fn certs(&self) -> (certs: &Vec<Vec<u8>>)
        ensures
            outside::each_bytes(certs@) == self@.certs,
            certs@.len() > 0,
    {
        proof {
            use_type_invariant(self);
        }
        &self.certs
    }

    /// The private key.
    pub fn key(&self) -> (key: &Vec<u8>)
        ensures
            key@ == self@.key,
    {
        &self.key
    }

    /// Loads the material of two files, given the sections that were found in them.
    pub fn from_sections(
        pair: FilePair,
        certs: Vec<Option<Vec<u8>>>,
        keys: Vec<Option<Vec<u8>>>,
    ) -> (result: Result<TlsConfig, TlsError>)
        ensures
            agrees(
                result,
                pair_material(pair, outside::section_bytes(certs@), outside::section_bytes(keys@)),
            ),
    {
        if let Err(cause) = pair.cert {
            return Err(TlsError::CertUnread(cause));
        }
        let chain = readable_sections(certs);
        if chain.len() == 0 {
            return Err(TlsError::NoCertificates);
        }
        if let Err(cause) = pair.key {
            return Err(TlsError::KeyUnread(cause));
        }
        let mut found = readable_sections(keys);
        if found.len() == 0 {
            return Err(TlsError::NoPrivateKeys);
        }
        let key = found.remove(0);
        let config = TlsConfig { certs: chain, key };
        Ok(config)
    }

    /// Loads the material of a certificate file and a key file that have been read.
    pub fn load_from_files(pair: FilePair) -> (result: Result<TlsConfig, TlsError>)
        ensures
            agrees(result, material_of(pair)),
    {
        let certs = match &pair.cert {
            Ok(pem) => outside::read_pem_certs(pem.as_slice()),
            Err(_) => Vec::new(),
        };
        let keys = match &pair.key {
            Ok(pem) => outside::read_pem_pkcs8_keys(pem.as_slice()),
            Err(_) => Vec::new(),
        };
        TlsConfig::from_sections(pair, certs, keys)
    }

    /// Loads the material of the local certificate directory: `None` where one of its two files
    /// is missing or they give no material.
    pub fn load_from_cert_dir(files: Option<FilePair>) -> (material: Option<TlsConfig>)
        ensures
            agrees_optional(material, optional_material(files)),
    {
        match files {
            Some(pair) => match TlsConfig::load_from_files(pair) {
                Ok(config) => Some(config),
                Err(_) => None,
            },
            None => None,
        }
    }

    /// Loads the material of the files that `TLS_CERT_PATH` and `TLS_KEY_PATH` name: `None` where
    /// one of the two is not set or the files give no material.
    pub fn load_from_env(files: Option<FilePair>) -> (material: Option<TlsConfig>)
        ensures
            agrees_optional(material, optional_material(files)),
    {
        match files {
            Some(pair) => match TlsConfig::load_from_files(pair) {
                Ok(config) => Some(config),
                Err(_) => None,
            },
            None => None,
        }
    }

    /// Decides what the search for TLS material comes to, or where it goes on, by the files that
    /// were found at the place that it has come to.
    pub fn load_from_le_config(place: Place, files: Option<FilePair>) -> (step: Step)
        ensures
            is_step(place, files, step),
    {
        match place {
            Place::CertDir => match TlsConfig::load_from_cert_dir(files) {
                Some(config) => Step::Done(Ok(config)),
                None => Step::Look(Place::FullChain),
            },
            Place::FullChain => match files {
                Some(pair) => Step::Done(TlsConfig::load_from_files(pair)),
                None => Step::Look(Place::PlainCert),
            },
            Place::PlainCert => match files {
                Some(pair) => Step::Done(TlsConfig::load_from_files(pair)),
                None => Step::Look(Place::Environment),
            },
            Place::Environment => match TlsConfig::load_from_env(files) {
                Some(config) => Step::Done(Ok(config)),
                None => Step::Provision,
            },
        }
    }

    /// Loads the material that was provisioned.
    pub fn load_provisioned(outcome: Result<FilePair, String>) -> (result: Result<TlsConfig, TlsError>)
        ensures
            agrees(result, provisioned_material(outcome)),
    {
        match outcome {
            Ok(pair) => TlsConfig::load_from_files(pair),
            Err(cause) => Err(TlsError::Unprovisioned(cause)),
        }
    }

    /// Makes an acceptor of TLS connections that uses this chain and this key, and asks the client
    /// for no certificate.
    ///
    /// Whether the TLS library takes the chain and the key rests on the crypto provider of the
    /// process. Its refusal of them is handed back.
    pub fn create_acceptor(&self) -> (made: Result<TlsAcceptor, TlsError>)
        ensures
            match made {
                Ok(acceptor) => {
                    &&& outside::acceptor_chain(acceptor) == self@.certs
                    &&& outside::acceptor_key(acceptor) == self@.key
                    &&& !outside::acceptor_asks_client(acceptor)
                    &&& outside::single_cert_outcome(self@.certs, self@.key, None)
                },
                Err(error) => error matches TlsError::Rejected(refusal)
                    && outside::single_cert_outcome(self@.certs, self@.key, Some(refusal)),
            },
    {
        acceptor_result(outside::single_cert_acceptor(&self.certs, &self.key))
    }
}

/// The outcome of making an acceptor, with the library's error in place of that of `rustls`.
pub fn acceptor_result(made: Result<TlsAcceptor, rustls::Error>) -> (result: Result<TlsAcceptor, TlsError>)
    ensures
        result == match made {
            Ok(acceptor) => Ok::<TlsAcceptor, TlsError>(acceptor),
            Err(error) => Err::<TlsAcceptor, TlsError>(TlsError::Rejected(error)),
        },
{
    match made {
        Ok(acceptor) => Ok(acceptor),
        Err(error) => Err(TlsError::Rejected(error)),
    }
}

// ---------------------------------------------------------------------------
// The search for TLS material
// ---------------------------------------------------------------------------

/// The material of a pair of files that may be missing, where it has some.
pub open spec fn optional_material(files: Option<FilePair>) -> Option<TlsView> {
    match files {
        Some(pair) => match material_of(pair) {
            Ok(material) => Some(material),
            Err(_) => None,
        },
        None => None,
    }
}

/// What came out holds what is expected, and is missing where nothing is.
pub open spec fn agrees_optional(result: Option<TlsConfig>, expected: Option<TlsView>) -> bool {
    match result {
        Some(config) => expected == Some(config@),
        None => expected is None,
    }
}

/// The places where TLS material is looked for, in this order, before it is provisioned.
#[derive(Debug, Clone, Copy, PartialEq, Eq, Structural)]
pub enum Place {
    /// `cert.pem` and `key.pem` in the local certificate directory.
    CertDir,
    /// `fullchain.pem` and `privkey.pem` of certbot.
    FullChain,
    /// `cert.pem` and `key.pem` of certbot.
    PlainCert,
    /// The files that `TLS_CERT_PATH` and `TLS_KEY_PATH` name.
    Environment,
}

/// Where the search goes on, or what it has come to.
pub enum Step {
    /// Look at this place next.
    Look(Place),
    /// Provision a certificate.
    Provision,
    /// The search is over.
    Done(Result<TlsConfig, TlsError>),
}

/// A step of the search, with what the TLS material holds in its place.
pub enum StepView {
    Look(Place),
    Provision,
    Done(Result<TlsView, TlsError>),
}

/// What the search does on the files at a place. Files in the local directory or named by the
/// environment that give no material are passed over; certbot's files decide the search.
pub open spec fn next_step(place: Place, files: Option<FilePair>) -> StepView {
    match place {
        Place::CertDir => match optional_material(files) {
            Some(material) => StepView::Done(Ok(material)),
            None => StepView::Look(Place::FullChain),
        },
        Place::FullChain => match files {
            Some(pair) => StepView::Done(material_of(pair)),
            None => StepView::Look(Place::PlainCert),
        },
        Place::PlainCert => match files {
            Some(pair) => StepView::Done(material_of(pair)),
            None => StepView::Look(Place::Environment),
        },
        Place::Environment => match optional_material(files) {
            Some(material) => StepView::Done(Ok(material)),
            None => StepView::Provision,
        },
    }
}

/// The step is what the search does on the files at a place.
pub open spec fn is_step(place: Place, files: Option<FilePair>, step: Step) -> bool {
    match step {
        Step::Look(next) => next_step(place, files) == StepView::Look(next),
        Step::Provision => next_step(place, files) is Provision,
        Step::Done(result) => next_step(place, files) matches StepView::Done(expected) && agrees(
            result,
            expected,
        ),
    }
}

/// The material of a certificate that was provisioned.
pub open spec fn provisioned_material(outcome: Result<FilePair, String>) -> Result<TlsView, TlsError> {
    match outcome {
        Ok(pair) => material_of(pair),
        Err(cause) => Err(TlsError::Unprovisioned(cause)),
    }
}

// ---------------------------------------------------------------------------
// The files of each place
// ---------------------------------------------------------------------------

/// The paths of a certificate file and its key file, each by the components that are joined.
#[derive(Debug)]
pub struct FilePaths {
    pub cert: Vec<String>,
    pub key: Vec<String>,
    /// Whether the files count only where both exist. Else they are read in any case.
    pub if_present: bool,
}

/// What a pair of paths holds.
#[verifier::ext_equal]
pub struct PathsView {
    pub cert: Seq<Seq<char>>,
    pub key: Seq<Seq<char>>,
    pub if_present: bool,
}

/// The texts of a list of strings.
pub open spec fn texts(list: Seq<String>) -> Seq<Seq<char>> {
    list.map_values(|text: String| text@)
}

impl View for FilePaths {
    type V = PathsView;

    open spec fn view(&self) -> PathsView {
        PathsView { cert: texts(self.cert@), key: texts(self.key@), if_present: self.if_present }
    }
}

/// Where TLS material may lie.
#[derive(Debug)]
pub struct Locations {
    /// The local certificate directory.
    pub cert_dir: String,
    /// The domain, by which certbot files its certificates.
    pub domain: String,
    /// `TLS_CERT_PATH`.
    pub cert_path: Option<String>,
    /// `TLS_KEY_PATH`.
    pub key_path: Option<String>,
}

/// The paths at a place; none where the environment does not name both.
pub open spec fn paths_of(place: Place, locations: Locations) -> Option<PathsView> {
    match place {
        Place::CertDir => Some(
            PathsView {
                cert: seq![locations.cert_dir@, "cert.pem"@],
                key: seq![locations.cert_dir@, "key.pem"@],
                if_present: true,
            },
        ),
        Place::FullChain => Some(
            PathsView {
                cert: seq!["/etc/letsencrypt/live"@, locations.domain@, "fullchain.pem"@],
                key: seq!["/etc/letsencrypt/live"@, locations.domain@, "privkey.pem"@],
                if_present: true,
            },
        ),
        Place::PlainCert => Some(
            PathsView {
                cert: seq!["/etc/letsencrypt/live"@, locations.domain@, "cert.pem"@],
                key: seq!["/etc/letsencrypt/live"@, locations.domain@, "key.pem"@],
                if_present: true,
            },
        ),
        Place::Environment => match (locations.cert_path, locations.key_path) {
            (Some(cert), Some(key)) => Some(
                PathsView { cert: seq![cert@], key: seq![key@], if_present: false },
            ),
            _ => None,
        },
    }
}

fn joined(first: &str, second: &str) -> (list: Vec<String>)
    ensures
        texts(list@) == seq![first@, second@],
{
    let mut list: Vec<String> = Vec::new();
    list.push(first.to_owned());
    list.push(second.to_owned());
    assert(texts(list@) =~= seq![first@, second@]);
    list
}

fn live_file(domain: &str, name: &str) -> (list: Vec<String>)
    ensures
        texts(list@) == seq!["/etc/letsencrypt/live"@, domain@, name@],
{
    let mut list = joined("/etc/letsencrypt/live", domain);
    let ghost before = list@;
    list.push(name.to_owned());
    assert(texts(list@) =~= texts(before).push(name@));
    assert(texts(list@) =~= seq!["/etc/letsencrypt/live"@, domain@, name@]);
    list
}

fn single(path: &String) -> (list: Vec<String>)
    ensures
        texts(list@) == seq![path@],
{
    let mut list: Vec<String> = Vec::new();
    list.push(path.clone());
    assert(texts(list@) =~= seq![path@]);
    list
}

/// The files to look for at a place.
pub fn paths_at(place: Place, locations: &Locations) -> (paths: Option<FilePaths>)
    ensures
        match paths {
            Some(found) => paths_of(place, *locations) == Some(found@),
            None => paths_of(place, *locations) is None,
        },
{
    let domain = locations.domain.as_str();
    match place {
        Place::CertDir => Some(
            FilePaths {
                cert: joined(locations.cert_dir.as_str(), "cert.pem"),
                key: joined(locations.cert_dir.as_str(), "key.pem"),
                if_present: true,
            },
        ),
        Place::FullChain => Some(
            FilePaths {
                cert: live_file(domain, "fullchain.pem"),
                key: live_file(domain, "privkey.pem"),
                if_present: true,
            },
        ),
        Place::PlainCert => Some(
            FilePaths {
                cert: live_file(domain, "cert.pem"),
                key: live_file(domain, "key.pem"),
                if_present: true,
            },
        ),
        Place::Environment => match (&locations.cert_path, &locations.key_path) {
            (Some(cert), Some(key)) => Some(
                FilePaths { cert: single(cert), key: single(key), if_present: false },
            ),
            _ => None,
        },
    }
}

// ---------------------------------------------------------------------------
// Laws
// ---------------------------------------------------------------------------

/// What lies at each place, and what provisioning would come to.
pub struct World {
    pub cert_dir: Option<FilePair>,
    pub full_chain: Option<FilePair>,
    pub plain_cert: Option<FilePair>,
    pub environment: Option<FilePair>,
    pub provisioned: Result<FilePair, String>,
}

impl World {
    /// The files at a place.
    pub open spec fn files_at(self, place: Place) -> Option<FilePair> {
        match place {
            Place::CertDir => self.cert_dir,
            Place::FullChain => self.full_chain,
            Place::PlainCert => self.plain_cert,
            Place::Environment => self.environment,
        }
    }
}

/// The places that come behind a place.
pub open spec fn places_behind(place: Place) -> nat {
    match place {
        Place::CertDir => 3,
        Place::FullChain => 2,
        Place::PlainCert => 1,
        Place::Environment => 0,
    }
}

/// What the search comes to that has come to a place.
pub open spec fn search_from(world: World, place: Place) -> Result<TlsView, TlsError>
    decreases places_behind(place),
{
    match next_step(place, world.files_at(place)) {
        StepView::Done(result) => result,
        StepView::Provision => provisioned_material(world.provisioned),
        StepView::Look(next) => if places_behind(next) < places_behind(place) {
            search_from(world, next)
        } else {
            provisioned_material(world.provisioned)
        },
    }
}

/// Every step of a search that is not its end leads to a later place.
pub proof fn law_search_moves_on(place: Place, files: Option<FilePair>)
    ensures
        next_step(place, files) matches StepView::Look(next) ==> places_behind(next) < places_behind(
            place,
        ),
{
}

/// The search takes the first source that there is: the local certificate directory, certbot's
/// files, the files that the environment names, and at last a certificate provisioned now. Of
/// these, the first and the third are passed over where they give no material.
pub proof fn law_first_source_wins(world: World)
    ensures
        search_from(world, Place::CertDir) == (if optional_material(world.cert_dir) is Some {
            Ok::<TlsView, TlsError>(optional_material(world.cert_dir)->0)
        } else if world.full_chain is Some {
            material_of(world.full_chain->0)
        } else if world.plain_cert is Some {
            material_of(world.plain_cert->0)
        } else if optional_material(world.environment) is Some {
            Ok::<TlsView, TlsError>(optional_material(world.environment)->0)
        } else {
            provisioned_material(world.provisioned)
        }),
{
    reveal_with_fuel(search_from, 4);
}

/// TLS material that was loaded has a certificate.
pub proof fn law_material_has_certificate(pair: FilePair)
    ensures
        material_of(pair) matches Ok(material) ==> material.certs.len() > 0,
{
}

/// The key of a certificate file lies in the same directory, for every place but the environment.
pub proof fn law_key_beside_certificate(place: Place, locations: Locations)
    requires
        place != Place::Environment,
    ensures
        paths_of(place, locations) matches Some(paths) && paths.cert.drop_last() == paths.key.drop_last(),
{
    let paths = paths_of(place, locations)->0;
    assert(paths.cert.drop_last() =~= paths.key.drop_last());
}

/// The sections that could be read are those of the file that are there, in their order, without the
/// places where there was an error.
pub proof fn law_readable_sections(sections: Seq<Option<Seq<u8>>>)
    ensures
        readable(sections) == sections.filter(|section: Option<Seq<u8>>| section is Some).map_values(
            |section: Option<Seq<u8>>| section->0,
        ),
    decreases sections.len(),
{
    let there = |section: Option<Seq<u8>>| section is Some;
    let bytes = |section: Option<Seq<u8>>| section->0;
    reveal(Seq::filter);
    if sections.len() == 0 {
        assert(readable(sections) =~= sections.filter(there).map_values(bytes));
    } else {
        let front = sections.drop_last();
        law_readable_sections(front);
        if there(sections.last()) {
            assert(sections.filter(there) == front.filter(there).push(sections.last()));
            assert(front.filter(there).push(sections.last()).map_values(bytes) =~= front.filter(
                there,
            ).map_values(bytes).push(sections.last()->0));
        } else {
            assert(sections.filter(there) == front.filter(there));
        }
    }
}

/// Sections that are read one part after the other are the readable ones of the first part and then
/// those of the second; one that is there is read, and one that is an error is passed over.
pub proof fn law_readable_part_by_part(first: Seq<Option<Seq<u8>>>, second: Seq<Option<Seq<u8>>>, der: Seq<u8>)
    ensures
        readable(first + second) == readable(first) + readable(second),
        readable(seq![Some(der)]) == seq![der],
        readable(seq![None::<Seq<u8>>]) == Seq::<Seq<u8>>::empty(),
        readable(Seq::empty()) == Seq::<Seq<u8>>::empty(),
    decreases second.len(),
{
    reveal_with_fuel(readable, 2);
    assert(seq![Some(der)].drop_last() =~= Seq::empty());
    assert(seq![None::<Seq<u8>>].drop_last() =~= Seq::empty());
    assert(readable(seq![Some(der)]) =~= seq![der]);
    if second.len() == 0 {
        assert(first + second =~= first);
        assert(readable(first) + readable(second) =~= readable(first));
    } else {
        law_readable_part_by_part(first, second.drop_last(), der);
        assert((first + second).drop_last() =~= first + second.drop_last());
        assert((first + second).last() == second.last());
        if second.last() is Some {
            assert(readable(first) + readable(second) =~= (readable(first) + readable(
                second.drop_last(),
            )).push(second.last()->0));
        }
    }
}

/// The material of a certificate file and a key file holds every certificate that can be read in the
/// first, in their order, and the first key that can be read in the second.
pub proof fn law_material_is_complete(cert: Vec<u8>, key: Vec<u8>, result: Result<TlsConfig, TlsError>)
    requires
        agrees(result, material_of(FilePair { cert: Ok(cert), key: Ok(key) })),
    ensures
        ({
            let there = |section: Option<Seq<u8>>| section is Some;
            let bytes = |section: Option<Seq<u8>>| section->0;
            let certs = outside::pem_certs(cert@).filter(there).map_values(bytes);
            let keys = outside::pem_pkcs8_keys(key@).filter(there).map_values(bytes);
            &&& result is Ok <==> certs.len() > 0 && keys.len() > 0
            &&& result matches Ok(config) ==> config@.certs.len() == certs.len() && forall|i: int|
                0 <= i < certs.len() ==> #[trigger] config@.certs[i] == certs[i]
            &&& result matches Ok(config) ==> config@.key == keys[0]
        }),
{
    law_readable_sections(outside::pem_certs(cert@));
    law_readable_sections(outside::pem_pkcs8_keys(key@));
}

/// The same of the sections that were found in the two files.
pub proof fn law_sections_are_complete(
    pair: FilePair,
    certs: Seq<Option<Seq<u8>>>,
    keys: Seq<Option<Seq<u8>>>,
    result: Result<TlsConfig, TlsError>,
)
    requires
        agrees(result, pair_material(pair, certs, keys)),
    ensures
        ({
            let there = |section: Option<Seq<u8>>| section is Some;
            let bytes = |section: Option<Seq<u8>>| section->0;
            let chain = certs.filter(there).map_values(bytes);
            let found = keys.filter(there).map_values(bytes);
            &&& result is Ok <==> pair.cert is Ok && pair.key is Ok && chain.len() > 0 && found.len() > 0
            &&& result matches Ok(config) ==> config@.certs == chain && config@.key == found[0]
        }),
{
    law_readable_sections(certs);
    law_readable_sections(keys);
}

/// No material comes out of two files in four ways, and the first that applies is reported: the
/// certificate file cannot be read, it holds no certificate, the key file cannot be read, it holds no
/// key.
pub proof fn law_why_no_material(pair: FilePair, result: Result<TlsConfig, TlsError>)
    requires
        agrees(result, material_of(pair)),
    ensures
        ({
            let there = |section: Option<Seq<u8>>| section is Some;
            let no_cert = outside::pem_certs(pair.cert->Ok_0@).filter(there).len() == 0;
            let no_key = outside::pem_pkcs8_keys(pair.key->Ok_0@).filter(there).len() == 0;
            &&& pair.cert matches Err(cause) ==> (result matches Err(error) && error
                == TlsError::CertUnread(cause))
            &&& pair.cert is Ok && no_cert ==> (result matches Err(error) && error
                == TlsError::NoCertificates)
            &&& pair.cert is Ok && !no_cert && pair.key is Err ==> (result matches Err(error) && error
                == TlsError::KeyUnread(pair.key->Err_0))
            &&& pair.cert is Ok && !no_cert && pair.key is Ok && no_key ==> (result matches Err(error)
                && error == TlsError::NoPrivateKeys)
            &&& pair.cert is Ok && !no_cert && pair.key is Ok && !no_key ==> result is Ok
        }),
{
    law_readable_sections(outside::pem_certs(pair.cert->Ok_0@));
    law_readable_sections(outside::pem_pkcs8_keys(pair.key->Ok_0@));
}

/// Files that may be missing give the material that loading them gives, and none where they are
/// missing or loading them fails.
pub proof fn law_optional_files(
    pair: FilePair,
    loaded: Result<TlsConfig, TlsError>,
    found: Option<TlsConfig>,
    missing: Option<TlsConfig>,
)
    requires
        agrees(loaded, material_of(pair)),
        agrees_optional(found, optional_material(Some(pair))),
        agrees_optional(missing, optional_material(None)),
    ensures
        loaded matches Ok(config) ==> (found matches Some(same) && same@ == config@),
        loaded is Err ==> found is None,
        missing is None,
{
}

/// Where a place of the search has no files, the next one is looked at, and behind the last a
/// certificate is provisioned.
pub proof fn law_search_without_files(place: Place, step: Step)
    requires
        is_step(place, None, step),
    ensures
        place == Place::CertDir ==> step == Step::Look(Place::FullChain),
        place == Place::FullChain ==> step == Step::Look(Place::PlainCert),
        place == Place::PlainCert ==> step == Step::Look(Place::Environment),
        place == Place::Environment ==> step == Step::Provision,
{
}

/// Where a place of the search has files that load, their material ends the search. Where they do not
/// load, certbot's end it with that error, and the others are passed over.
pub proof fn law_search_with_files(place: Place, pair: FilePair, loaded: Result<TlsConfig, TlsError>, step: Step)
    requires
        is_step(place, Some(pair), step),
        agrees(loaded, material_of(pair)),
    ensures
        loaded matches Ok(config) ==> (step matches Step::Done(Ok(same)) && same@ == config@),
        loaded matches Err(error) ==> {
            &&& place == Place::CertDir ==> step == Step::Look(Place::FullChain)
            &&& place == Place::FullChain || place == Place::PlainCert ==> (step matches Step::Done(
                Err(same),
            ) && same == error)
            &&& place == Place::Environment ==> step == Step::Provision
        },
{
}

/// A certificate that was provisioned is loaded as any pair of files is; where none was, that is the
/// error.
pub proof fn law_provisioned(
    pair: FilePair,
    loaded: Result<TlsConfig, TlsError>,
    cause: String,
    good: Result<TlsConfig, TlsError>,
    bad: Result<TlsConfig, TlsError>,
)
    requires
        agrees(loaded, material_of(pair)),
        agrees(good, provisioned_material(Ok(pair))),
        agrees(bad, provisioned_material(Err(cause))),
    ensures
        loaded matches Ok(config) ==> (good matches Ok(same) && same@ == config@),
        loaded matches Err(error) ==> (good matches Err(same) && same == error),
        bad matches Err(error) && error == TlsError::Unprovisioned(cause),
{
}

/// The files of each place: `cert.pem` and `key.pem` in the local directory, `fullchain.pem` with
/// `privkey.pem` and `cert.pem` with `key.pem` in certbot's directory of the domain, and the two that
/// the environment names, which alone are read without looking whether they exist.
pub proof fn law_files_of_each_place(place: Place, locations: Locations, paths: FilePaths)
    requires
        paths_of(place, locations) == Some(paths@),
    ensures
        paths.if_present <==> place != Place::Environment,
        place == Place::CertDir ==> {
            &&& paths.cert@.len() == 2 && paths.key@.len() == 2
            &&& paths.cert@[0]@ == locations.cert_dir@ && paths.cert@[1]@ == "cert.pem"@
            &&& paths.key@[0]@ == locations.cert_dir@ && paths.key@[1]@ == "key.pem"@
        },
        place == Place::FullChain || place == Place::PlainCert ==> {
            &&& paths.cert@.len() == 3 && paths.key@.len() == 3
            &&& paths.cert@[0]@ == "/etc/letsencrypt/live"@ && paths.key@[0]@ == "/etc/letsencrypt/live"@
            &&& paths.cert@[1]@ == locations.domain@ && paths.key@[1]@ == locations.domain@
        },
        place == Place::FullChain ==> paths.cert@[2]@ == "fullchain.pem"@ && paths.key@[2]@
            == "privkey.pem"@,
        place == Place::PlainCert ==> paths.cert@[2]@ == "cert.pem"@ && paths.key@[2]@ == "key.pem"@,
        place == Place::Environment ==> {
            &&& paths.cert@.len() == 1 && paths.key@.len() == 1
            &&& locations.cert_path matches Some(cert) && cert@ == paths.cert@[0]@
            &&& locations.key_path matches Some(key) && key@ == paths.key@[0]@
        },
{
    let cert = texts(paths.cert@);
    let key = texts(paths.key@);
    assert(cert.len() == paths.cert@.len() && key.len() == paths.key@.len());
    assert forall|i: int| 0 <= i < cert.len() implies #[trigger] cert[i] == paths.cert@[i]@ by {}
    assert forall|i: int| 0 <= i < key.len() implies #[trigger] key[i] == paths.key@[i]@ by {}
    assert(cert[0] == paths.cert@[0]@ && key[0] == paths.key@[0]@);
    if place != Place::Environment {
        assert(cert[1] == paths.cert@[1]@ && key[1] == paths.key@[1]@);
        if place != Place::CertDir {
            assert(cert[2] == paths.cert@[2]@ && key[2] == paths.key@[2]@);
        }
    }
}

/// Every place has files to look for, but for the environment where it does not name both.
pub proof fn law_places_with_files(place: Place, locations: Locations)
    ensures
        paths_of(place, locations) is None <==> place == Place::Environment && (locations.cert_path is None
            || locations.key_path is None),
{
}

/// What an error says: what the file system or the provisioning said, or that there was no certificate
/// or no key. The error of the TLS library speaks for itself.
pub proof fn law_error_texts(cause: String, refusal: rustls::Error)
    ensures
        TlsError::CertUnread(cause).text() == Some(cause@),
        TlsError::NoCertificates.text() == Some("No certificates found in cert file"@),
        TlsError::KeyUnread(cause).text() == Some(cause@),
        TlsError::NoPrivateKeys.text() == Some("No private keys found in key file"@),
        TlsError::Unprovisioned(cause).text() == Some(cause@),
        TlsError::Rejected(refusal).text() is None,
{
}

/// A list of strings reads as their texts, one for one; a list of certificates as their bytes; and a
/// list of sections as the bytes of each that is there.
pub proof fn law_lists_read_one_for_one(
    list: Seq<String>,
    chain: Seq<Vec<u8>>,
    sections: Seq<Option<Vec<u8>>>,
    i: int,
)
    ensures
        texts(list).len() == list.len(),
        0 <= i < list.len() ==> texts(list)[i] == list[i]@,
        outside::each_bytes(chain).len() == chain.len(),
        0 <= i < chain.len() ==> outside::each_bytes(chain)[i] == chain[i]@,
        outside::section_bytes(sections).len() == sections.len(),
        0 <= i < sections.len() && sections[i] is Some ==> outside::section_bytes(sections)[i] == Some(
            sections[i]->0@,
        ),
        0 <= i < sections.len() && sections[i] is None ==> outside::section_bytes(sections)[i] is None,
{
}

} // verus!
