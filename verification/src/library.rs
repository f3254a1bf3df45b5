//! The library manager's rules: which names a library may have, how its
//! configuration is edited, the files that hold a library, which entries of
//! the libraries directory are loaded, the loaded libraries themselves, and
//! when an instance's node data is reconciled.
use vstd::prelude::*;
use std::collections::HashMap;
use crate::migrate::hex_digit;
use crate::text::str_eq;

verus! {

broadcast use vstd::std_specs::hash::group_hash_axioms;

/// Why the library manager refused a request.
#[derive(Debug, Clone, PartialEq, Eq)]
pub enum LibraryManagerError {
    InvalidConfig(String),
    LibraryNotFound,
    FileIO(String),
    NonUtf8Path,
    CurrentInstanceNotFound(String),
    InvalidIdentity,
}

/// Whether `c` has Unicode's White_Space property, as `char::is_whitespace`
/// documents.
pub open spec fn is_white_space(c: char) -> bool {
    let n = c as u32;
    (9 <= n <= 13) || n == 32 || n == 0x85 || n == 0xA0 || n == 0x1680 || (0x2000 <= n <= 0x200A)
        || n == 0x2028 || n == 0x2029 || n == 0x202F || n == 0x205F || n == 0x3000
}

fn white_space(c: char) -> (r: bool)
    ensures
        r == is_white_space(c),
{
    let n = c as u32;
    (9 <= n && n <= 13) || n == 32 || n == 0x85 || n == 0xA0 || n == 0x1680 || (0x2000 <= n && n
        <= 0x200A) || n == 0x2028 || n == 0x2029 || n == 0x202F || n == 0x205F || n == 0x3000
}

/// Whether a library may be named `name`: not empty, and not only white space.
pub open spec fn valid_library_name(name: Seq<char>) -> bool {
    exists|i: int| 0 <= i < name.len() && !is_white_space(#[trigger] name[i])
}

/// Checks the name of a library being created: an empty or blank name is
/// refused as an invalid configuration.
pub fn validate_library_name(name: &str) -> (r: Result<(), LibraryManagerError>)
    ensures
        r is Ok <==> valid_library_name(name@),
        r matches Err(e) ==> (e matches LibraryManagerError::InvalidConfig(m) && m@
            == "name cannot be empty"@),
{
    let n = name.unicode_len();
    let mut i: usize = 0;
    while i < n
        invariant
            n == name@.len(),
            i <= n,
            forall|j: int| 0 <= j < i ==> is_white_space(#[trigger] name@[j]),
        decreases n - i,
    {
        if !white_space(name.get_char(i)) {
            return Ok(());
        }
        i = i + 1;
    }
    Err(LibraryManagerError::InvalidConfig(String::from_str("name cannot be empty")))
}

/// The configuration of a library.
#[derive(Debug, Clone)]
pub struct LibraryConfig {
    pub name: String,
    pub description: Option<String>,
    pub instance_id: i32,
}

/// A value an edit may leave alone, clear, or set.
#[derive(Debug, Clone)]
pub enum MaybeUndefined<T> {
    Undefined,
    Null,
    Value(T),
}

/// The configuration after an edit: a given name replaces the old one; the
/// description is kept, cleared or replaced.
pub open spec fn edited_config(
    config: LibraryConfig,
    name: Option<String>,
    description: MaybeUndefined<String>,
) -> LibraryConfig {
    LibraryConfig {
        name: match name {
            Some(n) => n,
            None => config.name,
        },
        description: match description {
            MaybeUndefined::Undefined => config.description,
            MaybeUndefined::Null => None,
            MaybeUndefined::Value(d) => Some(d),
        },
        instance_id: config.instance_id,
    }
}

/// Edits a library's configuration.
pub fn edit_config(config: LibraryConfig, name: Option<String>, description: MaybeUndefined<String>) -> (r:
    LibraryConfig)
    ensures
        r == edited_config(config, name, description),
{
    let mut config = config;
    match name {
        Some(n) => {
            config.name = n;
        },
        None => {},
    }
    match description {
        MaybeUndefined::Undefined => {},
        MaybeUndefined::Null => {
            config.description = None;
        },
        MaybeUndefined::Value(d) => {
            config.description = Some(d);
        },
    }
    config
}

/// Editing a library's name and its description are independent: the new
/// description depends only on the description argument and the old one
/// (left alone, cleared, or set), whatever name is given, and the new name
/// only on the name argument and the old one, whatever description is
/// given; the instance never changes.
pub proof fn lemma_edit_fields_independent(
    config: LibraryConfig,
    name: Option<String>,
    other_name: Option<String>,
    description: MaybeUndefined<String>,
    other_description: MaybeUndefined<String>,
    n: String,
    d: String,
)
    ensures
        edited_config(config, name, description).description == edited_config(
            config,
            other_name,
            description,
        ).description,
        edited_config(config, name, description).name == edited_config(
            config,
            name,
            other_description,
        ).name,
        edited_config(config, name, MaybeUndefined::Undefined).description == config.description,
        edited_config(config, name, MaybeUndefined::Null).description is None,
        edited_config(config, name, MaybeUndefined::Value(d)).description == Some(d),
        edited_config(config, None, description).name == config.name,
        edited_config(config, Some(n), description).name == n,
        edited_config(config, name, description).instance_id == config.instance_id,
{
}

/// The lowercase hexadecimal digits of the low `n` digits of `x`, most
/// significant first.
pub open spec fn hex_fixed(x: nat, n: nat) -> Seq<char>
    decreases n,
{
    if n == 0 {
        Seq::empty()
    } else {
        hex_fixed(x / 16, (n - 1) as nat).push(hex_digit((x % 16) as int))
    }
}

/// The hyphenated text of a UUID: its 32 hexadecimal digits in groups of
/// 8, 4, 4, 4 and 12.
pub open spec fn uuid_text(id: u128) -> Seq<char> {
    let h = hex_fixed(id as nat, 32);
    h.subrange(0, 8) + "-"@ + h.subrange(8, 12) + "-"@ + h.subrange(12, 16) + "-"@ + h.subrange(16, 20)
        + "-"@ + h.subrange(20, 32)
}

/// Calls `uuid::Uuid::from_u128(id).to_string()`: the lowercase hyphenated
/// text of the UUID whose big-endian value is `id`.
#[verifier::external_body]
fn uuid_to_string(id: u128) -> (r: String)
    ensures
        r@ == uuid_text(id),
{
    uuid::Uuid::from_u128(id).to_string()
}

/// What `uuid::Uuid::from_str` parses `s` to, if it parses.
pub uninterp spec fn uuid_parse(s: Seq<char>) -> Option<u128>;

/// Calls `uuid::Uuid::from_str` and takes the value of the UUID. Its
/// source accepts, among other forms, the hyphenated text it prints.
#[verifier::external_body]
pub(crate) fn parse_uuid(s: &str) -> (r: Option<u128>)
    ensures
        r == uuid_parse(s@),
        forall|x: u128| s@ == uuid_text(x) ==> r == Some(x),
{
    <uuid::Uuid as std::str::FromStr>::from_str(s).ok().map(|u| u.as_u128())
}

/// The name of the file holding a library's configuration.
pub open spec fn config_file_name(id: u128) -> Seq<char> {
    uuid_text(id) + ".sdlibrary"@
}

/// The name of the file holding a library's database.
pub open spec fn db_file_name(id: u128) -> Seq<char> {
    uuid_text(id) + ".db"@
}

/// The name of the file holding library `id`'s configuration.
pub fn library_config_file(id: u128) -> (r: String)
    ensures
        r@ == config_file_name(id),
{
    let mut r = uuid_to_string(id);
    r.append(".sdlibrary");
    r
}

/// The name of the file holding library `id`'s database.
pub fn library_db_file(id: u128) -> (r: String)
    ensures
        r@ == db_file_name(id),
{
    let mut r = uuid_to_string(id);
    r.append(".db");
    r
}

/// The address of a library's database at `db_path`.
pub fn database_url(db_path: &str) -> (r: String)
    ensures
        r@ == "file:"@ + db_path@ + "?socket_timeout=15&connection_limit=1"@,
{
    let mut r = String::from_str("file:");
    r.append(db_path);
    r.append("?socket_timeout=15&connection_limit=1");
    r
}

/// What the manager does with an entry of the libraries directory.
#[derive(Debug, Clone, PartialEq, Eq)]
pub enum LibraryEntryAction {
    /// Not a library configuration, or one that cannot be loaded.
    Skip,
    /// Load the library with this id.
    Load(u128),
    /// Loading stops on this error.
    Fail(String),
}

/// Whether the database file next to a library's configuration exists.
#[derive(Debug, Clone)]
pub enum DbFileCheck {
    Exists,
    Missing,
    Failed(String),
}

/// What the manager does with a directory entry: a file with extension
/// `sdlibrary` whose stem is a UUID is loaded if its database exists;
/// an error checking the database stops loading.
pub open spec fn entry_action(is_sdlibrary: bool, is_file: bool, stem: Option<Seq<char>>, db: DbFileCheck) -> LibraryEntryAction {
    if !(is_sdlibrary && is_file) {
        LibraryEntryAction::Skip
    } else {
        match stem {
            None => LibraryEntryAction::Skip,
            Some(s) => match uuid_parse(s) {
                None => LibraryEntryAction::Skip,
                Some(id) => match db {
                    DbFileCheck::Exists => LibraryEntryAction::Load(id),
                    DbFileCheck::Missing => LibraryEntryAction::Skip,
                    DbFileCheck::Failed(e) => LibraryEntryAction::Fail(e),
                },
            },
        }
    }
}

/// Decides what the manager does with an entry of the libraries directory.
pub fn library_entry_action(is_sdlibrary: bool, is_file: bool, stem: Option<&str>, db: DbFileCheck) -> (r:
    LibraryEntryAction)
    ensures
        r == entry_action(
            is_sdlibrary,
            is_file,
            match stem {
                Some(s) => Some(s@),
                None => None,
            },
            db,
        ),
        forall|x: u128|
            is_sdlibrary && is_file && db is Exists && (stem matches Some(s) && s@ == uuid_text(x))
                ==> r == LibraryEntryAction::Load(x),
{
    if !(is_sdlibrary && is_file) {
        return LibraryEntryAction::Skip;
    }
    let s = match stem {
        None => {
            return LibraryEntryAction::Skip;
        },
        Some(s) => s,
    };
    match parse_uuid(s) {
        None => LibraryEntryAction::Skip,
        Some(id) => match db {
            DbFileCheck::Exists => LibraryEntryAction::Load(id),
            DbFileCheck::Missing => LibraryEntryAction::Skip,
            DbFileCheck::Failed(e) => LibraryEntryAction::Fail(e),
        },
    }
}

/// Whether a path's extension is `sdlibrary`.
pub fn is_library_extension(ext: Option<&str>) -> (r: bool)
    ensures
        r == (ext matches Some(e) && e@ == "sdlibrary"@),
{
    match ext {
        Some(e) => str_eq(e, "sdlibrary"),
        None => false,
    }
}

/// The platforms a node runs on, with the numbers they are stored as.
#[derive(Debug, Clone, Copy, PartialEq, Eq, Structural)]
pub enum Platform {
    Unknown,
    Windows,
    MacOS,
    Linux,
    IOS,
    Android,
}

/// The number a platform is stored as.
pub open spec fn platform_number(p: Platform) -> i32 {
    match p {
        Platform::Unknown => 0,
        Platform::Windows => 1,
        Platform::MacOS => 2,
        Platform::Linux => 3,
        Platform::IOS => 4,
        Platform::Android => 5,
    }
}

/// A library name holding a letter or a digit is accepted, and one made of
/// nothing but spaces, tabs and line breaks (or of nothing) is refused.
pub proof fn lemma_library_names(name: Seq<char>, c: char)
    ensures
        name.contains(c) && (('a' <= c <= 'z') || ('A' <= c <= 'Z') || ('0' <= c <= '9')) ==> valid_library_name(name),
        (forall|i: int| 0 <= i < name.len() ==> #[trigger] name[i] == ' ' || name[i] == '\t' || name[i] == '\n' || name[i] == '\r')
            ==> !valid_library_name(name),
{
    if name.contains(c) && (('a' <= c <= 'z') || ('A' <= c <= 'Z') || ('0' <= c <= '9')) {
        let i = choose|i: int| 0 <= i < name.len() && name[i] == c;
        assert(!is_white_space(name[i]));
    }
}

/// Each platform is stored as a number of its own.
pub proof fn lemma_platform_numbers_distinct(p: Platform, q: Platform)
    ensures
        platform_number(p) == platform_number(q) ==> p == q,
{
}

impl Platform {
    /// The number the platform is stored as.
    pub fn as_i32(&self) -> (r: i32)
        ensures
            r == platform_number(*self),
    {
        match self {
            Platform::Unknown => 0,
            Platform::Windows => 1,
            Platform::MacOS => 2,
            Platform::Linux => 3,
            Platform::IOS => 4,
            Platform::Android => 5,
        }
    }
}

/// The platform of an operating system named as Rust names it.
pub fn platform_from_os(os: &str) -> (r: Platform)
    ensures
        r == (if os@ == "windows"@ {
            Platform::Windows
        } else if os@ == "macos"@ {
            Platform::MacOS
        } else if os@ == "linux"@ {
            Platform::Linux
        } else {
            Platform::Unknown
        }),
{
    if str_eq(os, "windows") {
        Platform::Windows
    } else if str_eq(os, "macos") {
        Platform::MacOS
    } else if str_eq(os, "linux") {
        Platform::Linux
    } else {
        Platform::Unknown
    }
}

/// Whether a library's instance moved to another node (by id, platform or
/// name) and its node data must be updated.
pub fn needs_node_reconcile(
    instance_node_id: u128,
    instance_platform: i32,
    instance_node_name: &str,
    node_id: u128,
    platform: i32,
    node_name: &str,
) -> (r: bool)
    ensures
        r == (instance_node_id != node_id || instance_platform != platform || instance_node_name@
            != node_name@),
{
    instance_node_id != node_id || instance_platform != platform || !str_eq(
        instance_node_name,
        node_name,
    )
}

/// The key to set as default when the key manager is filled: the last
/// stored key marked default, unless its id is the nil UUID.
pub open spec fn default_key_of(keys: Seq<(u128, bool)>) -> Option<u128>
    decreases keys.len(),
{
    if keys.len() == 0 {
        None
    } else if keys.last().1 {
        if keys.last().0 == 0 {
            None
        } else {
            Some(keys.last().0)
        }
    } else {
        default_key_of(keys.drop_last())
    }
}

/// The stored key to set as default, given each stored key's id and
/// whether it is marked default.
pub fn default_key(keys: &Vec<(u128, bool)>) -> (r: Option<u128>)
    ensures
        r == default_key_of(keys@),
{
    let mut default: u128 = 0;
    let mut i: usize = 0;
    while i < keys.len()
        invariant
            i <= keys@.len(),
            (if default == 0 {
                None
            } else {
                Some(default)
            }) == default_key_of(keys@.subrange(0, i as int)),
        decreases keys.len() - i,
    {
        proof {
            assert(keys@.subrange(0, i + 1).drop_last() =~= keys@.subrange(0, i as int));
        }
        if keys[i].1 {
            default = keys[i].0;
        }
        i = i + 1;
    }
    proof {
        assert(keys@.subrange(0, keys@.len() as int) =~= keys@);
    }
    if default == 0 {
        None
    } else {
        Some(default)
    }
}

/// An event of the library manager.
#[derive(Debug, Clone, Copy, PartialEq, Eq, Structural)]
pub enum LibraryManagerEvent {
    Load(u128),
    Edit(u128),
    InstancesModified(u128),
    Delete(u128),
}

/// What the networked libraries do on a library manager event.
#[derive(Debug, Clone, Copy, PartialEq, Eq, Structural)]
pub enum NetworkedLibraryAction {
    /// Load (or reload) the library's instances.
    Load(u128),
    /// Nothing yet.
    Nothing,
    /// Forget the library.
    Delete(u128),
}

/// What the networked libraries do on an event: loading or changing a
/// library's instances reloads them, deleting it forgets them, an edit does
/// nothing.
pub fn networked_library_action(event: LibraryManagerEvent) -> (r: NetworkedLibraryAction)
    ensures
        r == match event {
            LibraryManagerEvent::Load(id) => NetworkedLibraryAction::Load(id),
            LibraryManagerEvent::InstancesModified(id) => NetworkedLibraryAction::Load(id),
            LibraryManagerEvent::Edit(_) => NetworkedLibraryAction::Nothing,
            LibraryManagerEvent::Delete(id) => NetworkedLibraryAction::Delete(id),
        },
{
    match event {
        LibraryManagerEvent::Load(id) => NetworkedLibraryAction::Load(id),
        LibraryManagerEvent::InstancesModified(id) => NetworkedLibraryAction::Load(id),
        LibraryManagerEvent::Edit(_) => NetworkedLibraryAction::Nothing,
        LibraryManagerEvent::Delete(id) => NetworkedLibraryAction::Delete(id),
    }
}

/// A loaded library: its instance's id and its configuration.
#[derive(Debug, Clone)]
pub struct LoadedLibrary {
    pub instance_id: u128,
    pub config: LibraryConfig,
}

/// The libraries loaded into the node, by id.
pub struct Libraries {
    libraries: HashMap<u128, LoadedLibrary>,
}

impl View for Libraries {
    type V = Map<u128, LoadedLibrary>;

    closed spec fn view(&self) -> Map<u128, LoadedLibrary> {
        self.libraries@
    }
}

impl Libraries {
    /// No library loaded.
    pub fn new() -> (r: Self)
        ensures
            r@ == Map::<u128, LoadedLibrary>::empty(),
    {
        Libraries { libraries: HashMap::new() }
    }

    /// Records a loaded library (replacing one with the same id).
    pub fn insert(&mut self, id: u128, library: LoadedLibrary)
        ensures
            final(self)@ == old(self)@.insert(id, library),
    {
        self.libraries.insert(id, library);
    }

    /// The library with id `id`, if loaded.
    pub fn get_library(&self, id: u128) -> (r: Option<&LoadedLibrary>)
        ensures
            match r {
                Some(l) => self@.contains_key(id) && *l == self@[id],
                None => !self@.contains_key(id),
            },
    {
        self.libraries.get(&id)
    }

    /// Whether the library with id `id` is loaded.
    pub fn hash_library(&self, id: u128) -> (r: bool)
        ensures
            r == self@.contains_key(id),
    {
        self.libraries.contains_key(&id)
    }

    /// Edits the configuration of library `id`: refused when it is not loaded.
    pub fn edit(&mut self, id: u128, name: Option<String>, description: MaybeUndefined<String>) -> (r: Result<
        (),
        LibraryManagerError,
    >)
        ensures
            !old(self)@.contains_key(id) ==> r == Err::<(), LibraryManagerError>(
                LibraryManagerError::LibraryNotFound,
            ) && final(self)@ == old(self)@,
            old(self)@.contains_key(id) ==> r is Ok && final(self)@ == old(self)@.insert(
                id,
                LoadedLibrary {
                    config: edited_config(old(self)@[id].config, name, description),
                    ..old(self)@[id]
                },
            ),
    {
        let library = match self.libraries.remove(&id) {
            None => {
                return Err(LibraryManagerError::LibraryNotFound);
            },
            Some(l) => l,
        };
        let config = edit_config(library.config, name, description);
        self.libraries.insert(id, LoadedLibrary { instance_id: library.instance_id, config });
        Ok(())
    }

    /// Forgets library `id` once its files are deleted: refused when it is
    /// not loaded; `files_removed` is the outcome of removing its database
    /// and configuration files. A failed removal is handed back and the
    /// library stays loaded.
    pub fn delete(&mut self, id: u128, files_removed: Result<(), String>) -> (r: Result<
        LoadedLibrary,
        LibraryManagerError,
    >)
        ensures
            !old(self)@.contains_key(id) ==> r == Err::<LoadedLibrary, LibraryManagerError>(
                LibraryManagerError::LibraryNotFound,
            ) && final(self)@ == old(self)@,
            old(self)@.contains_key(id) ==> (files_removed matches Err(e) ==> r == Err::<
                LoadedLibrary,
                LibraryManagerError,
            >(LibraryManagerError::FileIO(e)) && final(self)@ == old(self)@),
            old(self)@.contains_key(id) && files_removed is Ok ==> r == Ok::<
                LoadedLibrary,
                LibraryManagerError,
            >(old(self)@[id]) && final(self)@ == old(self)@.remove(id),
    {
        if !self.libraries.contains_key(&id) {
            return Err(LibraryManagerError::LibraryNotFound);
        }
        match files_removed {
            Err(e) => Err(LibraryManagerError::FileIO(e)),
            Ok(()) => match self.libraries.remove(&id) {
                None => Err(LibraryManagerError::LibraryNotFound),
                Some(l) => Ok(l),
            },
        }
    }
}

impl LibraryConfig {
    /// A copy of the configuration.
    pub fn clone_config(&self) -> (r: LibraryConfig)
        ensures
            r.name@ == self.name@,
            r.instance_id == self.instance_id,
            r.description is Some == self.description is Some,
            r.description is Some ==> r.description->0@ == self.description->0@,
    {
        LibraryConfig {
            name: self.name.clone(),
            description: match &self.description {
                Some(d) => Some(d.clone()),
                None => None,
            },
            instance_id: self.instance_id,
        }
    }
}

/// A library that was loaded can be found, and is no longer found once
/// deleted.
pub proof fn lemma_loaded_then_deleted(libraries: Map<u128, LoadedLibrary>, id: u128, library: LoadedLibrary)
    ensures
        libraries.insert(id, library).contains_key(id),
        libraries.insert(id, library)[id] == library,
        !libraries.insert(id, library).remove(id).contains_key(id),
        forall|other: u128|
            other != id ==> (#[trigger] libraries.insert(id, library).remove(id).contains_key(other)
                == libraries.contains_key(other)),
{
}

} // verus!
