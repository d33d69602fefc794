//! The command line and the saved-key store: which operation to run, on
//! which file, and how its key is chosen (given, saved under an identifier,
//! or the master key). Reading and writing the store is left to the caller;
//! this module decides what it holds.
use crate::cipher::{sha256, sha256_digest};
use vstd::prelude::*;
use vstd::utf8::encode_utf8;

verus! {

/// How a command names its key.
#[derive(PartialEq, Debug)]
pub enum Pass<'a> {
    /// A key saved under an identifier (none while saving a new one).
    Saved { identifier: Option<&'a str> },
    /// A password given on the command line.
    Given { given: &'a str },
    /// The saved master key.
    Master,
}

/// What a `Pass` stands for.
pub enum PassView {
    Saved(Option<Seq<char>>),
    Given(Seq<char>),
    Master,
}

impl<'a> View for Pass<'a> {
    type V = PassView;

    open spec fn view(&self) -> PassView {
        match self {
            Pass::Saved { identifier } => PassView::Saved(
                match identifier {
                    Some(i) => Some(i@),
                    None => None,
                },
            ),
            Pass::Given { given } => PassView::Given(given@),
            Pass::Master => PassView::Master,
        }
    }
}

/// The view of an optional `Pass`.
pub open spec fn pass_view<'a>(p: Option<Pass<'a>>) -> Option<PassView> {
    match p {
        Some(p) => Some(p@),
        None => None,
    }
}

/// The view of an optional argument.
pub open spec fn arg_view(a: Option<&String>) -> Option<Seq<char>> {
    match a {
        Some(s) => Some(s@),
        None => None,
    }
}

/// The key option that `flag`, followed by the argument `p` if any, stands for.
pub open spec fn pass_for(flag: Seq<char>, p: Option<Seq<char>>) -> Option<PassView> {
    if flag == "-p"@ {
        match p {
            Some(v) => Some(PassView::Given(v)),
            None => None,
        }
    } else if flag == "-s"@ || flag == "--saved"@ {
        match p {
            Some(v) => Some(PassView::Saved(Some(v))),
            None => None,
        }
    } else if flag == "-m"@ || flag == "--master"@ {
        Some(PassView::Master)
    } else {
        None
    }
}

/// Whether two strings hold the same characters.
fn text_eq(a: &str, b: &str) -> (r: bool)
    ensures
        r == (a@ == b@),
{
    let a = a.to_owned();
    let b = b.to_owned();
    a == b
}

/// The key option that `flag` and the argument after it, if any, stand for.
fn get_pass<'a>(flag: &'a str, p: Option<&'a String>) -> (r: Option<Pass<'a>>)
    ensures
        pass_view(r) == pass_for(flag@, arg_view(p)),
{
    if text_eq(flag, "-p") {
        match p {
            Some(v) => Some(Pass::Given { given: v.as_str() }),
            None => None,
        }
    } else if text_eq(flag, "-s") || text_eq(flag, "--saved") {
        match p {
            Some(v) => Some(Pass::Saved { identifier: Some(v.as_str()) }),
            None => None,
        }
    } else if text_eq(flag, "-m") || text_eq(flag, "--master") {
        Some(Pass::Master)
    } else {
        None
    }
}

/// What the command asks for.
#[derive(PartialEq, Debug)]
pub enum Operation<'a> {
    Encrypt,
    Decrypt,
    /// Save a password: the master key, or a key under an identifier.
    SetPass,
    /// Show the usage text it holds.
    Help(&'a str),
}

/// What an `Operation` stands for.
pub enum OperationView {
    Encrypt,
    Decrypt,
    SetPass,
    Help(Seq<char>),
}

impl<'a> View for Operation<'a> {
    type V = OperationView;

    open spec fn view(&self) -> OperationView {
        match self {
            Operation::Encrypt => OperationView::Encrypt,
            Operation::Decrypt => OperationView::Decrypt,
            Operation::SetPass => OperationView::SetPass,
            Operation::Help(text) => OperationView::Help(text@),
        }
    }
}

/// A saved key and the identifier it is saved under.
pub struct Key {
    pub key: [u8; 32],
    pub identifier: String,
}

/// What a `Key` holds.
pub struct KeyView {
    pub key: Seq<u8>,
    pub identifier: Seq<char>,
}

impl View for Key {
    type V = KeyView;

    open spec fn view(&self) -> KeyView {
        KeyView { key: self.key@, identifier: self.identifier@ }
    }
}

/// The saved-key store: the master key, if set, and the keys saved under
/// identifiers, if any.
pub struct SavedConfig {
    pub master: Option<[u8; 32]>,
    pub keys: Option<Vec<Key>>,
}

/// What a `SavedConfig` holds.
pub struct SavedView {
    pub master: Option<Seq<u8>>,
    pub keys: Option<Seq<KeyView>>,
}

/// The views of saved keys.
pub open spec fn keys_view(keys: Seq<Key>) -> Seq<KeyView> {
    keys.map_values(|k: Key| k@)
}

impl View for SavedConfig {
    type V = SavedView;

    open spec fn view(&self) -> SavedView {
        SavedView {
            master: match self.master {
                Some(m) => Some(m@),
                None => None,
            },
            keys: match &self.keys {
                Some(keys) => Some(keys_view(keys@)),
                None => None,
            },
        }
    }
}

/// The key saved under `id`: the first one with that identifier.
pub open spec fn find_key(keys: Seq<KeyView>, id: Seq<char>) -> Option<Seq<u8>>
    decreases keys.len(),
{
    if keys.len() == 0 {
        None
    } else if keys[0].identifier == id {
        Some(keys[0].key)
    } else {
        find_key(keys.drop_first(), id)
    }
}

/// The view of an optional key.
pub open spec fn key_view(k: Option<[u8; 32]>) -> Option<Seq<u8>> {
    match k {
        Some(k) => Some(k@),
        None => None,
    }
}

impl SavedConfig {
    /// The key saved under `id`, if any; the first one where several share it.
    pub fn search(&self, id: &str) -> (r: Option<[u8; 32]>)
        requires
            self.keys is Some,
        ensures
            key_view(r) == find_key(self@.keys->0, id@),
    {
        let keys = match &self.keys {
            Some(keys) => keys,
            None => {
                return None;
            },
        };
        let wanted = id.to_owned();
        let n = keys.len();
        let mut i: usize = 0;
        assert(keys_view(keys@).subrange(0, n as int) =~= keys_view(keys@));
        while i < n
            invariant
                n == keys@.len(),
                i <= n,
                self@.keys == Some(keys_view(keys@)),
                wanted@ == id@,
                find_key(keys_view(keys@), id@) == find_key(keys_view(keys@).subrange(i as int, n as int), id@),
            decreases n - i,
        {
            let ghost rest = keys_view(keys@).subrange(i as int, n as int);
            if keys[i].identifier == wanted {
                return Some(keys[i].key);
            }
            assert(rest.drop_first() =~= keys_view(keys@).subrange(i + 1, n as int));
            i += 1;
        }
        None
    }
}

/// The command line, read: what to do, on which file, with which key, and
/// whether to remove the source afterwards.
pub struct Config<'a> {
    pub operation: Operation<'a>,
    file: Option<&'a str>,
    pub pass: Option<Pass<'a>>,
    saved: Option<SavedConfig>,
    replace: bool,
}

/// What a `Config` holds.
pub struct ConfigView {
    pub operation: OperationView,
    pub file: Option<Seq<char>>,
    pub pass: Option<PassView>,
    pub saved: Option<SavedView>,
    pub replace: bool,
}

impl<'a> View for Config<'a> {
    type V = ConfigView;

    closed spec fn view(&self) -> ConfigView {
        ConfigView {
            operation: self.operation@,
            file: match self.file {
                Some(f) => Some(f@),
                None => None,
            },
            pass: pass_view(self.pass),
            saved: match &self.saved {
                Some(s) => Some(s@),
                None => None,
            },
            replace: self.replace,
        }
    }
}

/// The usage text, shown for `--help` and for a command line that does not parse.
pub const HELP_TEXT: &'static str = "\
        A Command line tool for encrypting and decrypting your files.\n\
        \n\
        Usage:\n\
        \tcryptile [COMMAND] [FLAGS]\n\
        Commands:\n\
        \tencrypt <FILENAME> [PASSWORD_OPTIONS]       Encrypt file using given password\n\
        \tdecrypt <FILENAME> [PASSWORD_OPTIONS]       Decrypt file using given password\n\
        \t    Password Options:\n\
        \t        -p <PASSWORD>                       Specify a password\n\
        \t        -s, --saved <SAVED_IDENTIFIER>      Use a saved password using it's identifier\n\
        \t        -m, --master                        Use the master password (if set)\n\
        \tset [SET_OPTIONS]\n\
        \t    Set Options:\n\
        \t        -m, --master                        Set a master password\n\
        \t        -p                                  Save a password and it's identifier name\n\
        Flags:\n\
        \t-h, --help                                  Display this help information\n\
        \t--replace                                   Remove the original file after Encryption/Decryption\n\
          ";

/// The error when no key is saved under the identifier asked for.
pub const NO_SUCH_IDENTIFIER: &'static str = "No saved password with the given identifier found";

/// The error when no key is saved at all.
pub const NO_SAVED_PASSWORDS: &'static str = "No Passwords saved.\n\
                                Save one using `cryptile set -p` command";

/// The error when no master key is set.
pub const NO_MASTER_PASSWORD: &'static str = "No master password set.\n\
                                Set one using `cryptile set -m` command";

/// The key derived from a password: the SHA-256 digest of its UTF-8 bytes.
pub open spec fn password_key(password: Seq<char>) -> Seq<u8> {
    sha256_digest(encode_utf8(password))
}

/// Whether choosing the key of `pass` needs the saved-key store.
pub open spec fn needs_store(pass: PassView) -> bool {
    !(pass is Given)
}

/// The key that `pass` stands for, given the saved-key store where one is
/// needed, or the error that says why there is none.
pub open spec fn key_for(pass: PassView, saved: Option<SavedView>) -> Result<Seq<u8>, Seq<char>> {
    match pass {
        PassView::Given(given) => Ok(password_key(given)),
        PassView::Saved(identifier) => match saved->0.keys {
            Some(keys) => match find_key(keys, identifier->0) {
                Some(k) => Ok(k),
                None => Err(NO_SUCH_IDENTIFIER@),
            },
            None => Err(NO_SAVED_PASSWORDS@),
        },
        PassView::Master => match saved->0.master {
            Some(m) => Ok(m),
            None => Err(NO_MASTER_PASSWORD@),
        },
    }
}

/// The store after saving the key of `password`: as the master key for
/// `-m`, or, for `-p`, as one more key under `identifier`, after the others.
pub open spec fn stored(saved: SavedView, pass: PassView, password: Seq<char>, identifier: Seq<char>) -> SavedView {
    match pass {
        PassView::Master => SavedView { master: Some(password_key(password)), keys: saved.keys },
        _ => SavedView {
            master: saved.master,
            keys: Some(
                match saved.keys {
                    Some(keys) => keys,
                    None => Seq::empty(),
                }.push(KeyView { key: password_key(password), identifier }),
            ),
        },
    }
}

/// The texts of the arguments.
pub open spec fn words(args: Seq<String>) -> Seq<Seq<char>> {
    args.map_values(|s: String| s@)
}

/// Argument `i`, if there is one.
pub open spec fn word(args: Seq<Seq<char>>, i: int) -> Option<Seq<char>> {
    if 0 <= i < args.len() {
        Some(args[i])
    } else {
        None
    }
}

/// The position of the first `cryptile` argument at or after `i`, or 0 if none.
pub open spec fn program_index_from(args: Seq<Seq<char>>, i: int) -> int
    decreases args.len() - i,
{
    if i < 0 || i >= args.len() {
        0
    } else if args[i] == "cryptile"@ {
        i
    } else {
        program_index_from(args, i + 1)
    }
}

/// Whether `w` is one of the key options.
pub open spec fn is_pass_flag(w: Seq<char>) -> bool {
    w == "-p"@ || w == "-s"@ || w == "--saved"@ || w == "-m"@ || w == "--master"@
}

/// The file and key option of an `encrypt` or `decrypt` command whose
/// operation word stands at `x + 1`: the key option comes either before the
/// file (`-p <PASSWORD> <FILE>`) or after it (`<FILE> -p <PASSWORD>`).
pub open spec fn file_and_pass(args: Seq<Seq<char>>, x: int) -> Option<(Seq<char>, PassView)> {
    match word(args, x + 2) {
        None => None,
        Some(second) => if is_pass_flag(second) {
            match (pass_for(second, word(args, x + 3)), word(args, x + 4)) {
                (Some(pass), Some(file)) => Some((file, pass)),
                _ => None,
            }
        } else if args.len() < x + 4 {
            None
        } else {
            match pass_for(args[x + 3], word(args, x + 4)) {
                Some(pass) => Some((second, pass)),
                None => None,
            }
        },
    }
}

/// The configuration that a command line stands for, or `None` when it does
/// not parse. The command starts after the first `cryptile` argument, or
/// after the first argument when there is none.
pub open spec fn parsed(args: Seq<Seq<char>>) -> Option<ConfigView> {
    let x = program_index_from(args, 0);
    let op = match word(args, x + 1) {
        Some(w) => w,
        None => Seq::<char>::empty(),
    };
    if op == "encrypt"@ || op == "decrypt"@ {
        let operation = if op == "encrypt"@ {
            OperationView::Encrypt
        } else {
            OperationView::Decrypt
        };
        match file_and_pass(args, x) {
            Some((file, pass)) => Some(
                ConfigView {
                    operation,
                    file: Some(file),
                    pass: Some(pass),
                    saved: None,
                    replace: args.contains("--replace"@),
                },
            ),
            None => None,
        }
    } else if op == "set"@ {
        match word(args, x + 2) {
            None => None,
            Some(second) => if second == "-p"@ {
                Some(
                    ConfigView {
                        operation: OperationView::SetPass,
                        file: None,
                        pass: Some(PassView::Saved(None)),
                        saved: None,
                        replace: false,
                    },
                )
            } else if second == "-m"@ || second == "--master"@ {
                Some(
                    ConfigView {
                        operation: OperationView::SetPass,
                        file: None,
                        pass: Some(PassView::Master),
                        saved: None,
                        replace: false,
                    },
                )
            } else {
                None
            },
        }
    } else if op == "--help"@ || op == "-h"@ {
        Some(
            ConfigView {
                operation: OperationView::Help(HELP_TEXT@),
                file: None,
                pass: None,
                saved: None,
                replace: false,
            },
        )
    } else {
        None
    }
}

/// The position of the first `cryptile` argument, or 0 if none.
fn program_index(args: &Vec<String>) -> (r: usize)
    ensures
        r == program_index_from(words(args@), 0),
        r == 0 || r < args@.len(),
{
    let n = args.len();
    let mut i: usize = 0;
    while i < n
        invariant
            n == args@.len(),
            i <= n,
            program_index_from(words(args@), 0) == program_index_from(words(args@), i as int),
        decreases n - i,
    {
        if text_eq(args[i].as_str(), "cryptile") {
            return i;
        }
        i += 1;
    }
    0
}

/// Argument `i + k`, if there is one.
fn arg_at<'a>(args: &'a Vec<String>, i: usize, k: usize) -> (r: Option<&'a String>)
    requires
        i <= args@.len(),
    ensures
        arg_view(r) == word(words(args@), i + k),
{
    if k < args.len() - i {
        Some(&args[i + k])
    } else {
        None
    }
}

/// Whether some argument is `w`.
fn has_word(args: &Vec<String>, w: &str) -> (r: bool)
    ensures
        r == words(args@).contains(w@),
{
    let n = args.len();
    let mut i: usize = 0;
    while i < n
        invariant
            n == args@.len(),
            i <= n,
            forall|k: int| 0 <= k < i ==> #[trigger] words(args@)[k] != w@,
        decreases n - i,
    {
        if text_eq(args[i].as_str(), w) {
            assert(words(args@)[i as int] == w@);
            return true;
        }
        i += 1;
    }
    false
}

/// Whether `w` is one of the key options.
fn pass_flag(w: &str) -> (r: bool)
    ensures
        r == is_pass_flag(w@),
{
    text_eq(w, "-p") || text_eq(w, "-s") || text_eq(w, "--saved") || text_eq(w, "-m") || text_eq(
        w,
        "--master",
    )
}

impl<'a> Config<'a> {
    /// Reads the command line. A command line that does not parse gives the
    /// usage text as its error. For `set`, the saved-key store is not read
    /// here: the caller reads it and hands it over with `set_saved`.
    pub fn parse(args: &'a Vec<String>) -> (r: Result<Config<'a>, &'static str>)
        ensures
            match r {
                Ok(c) => parsed(words(args@)) == Some(c@),
                Err(m) => parsed(words(args@)) is None && m@ == HELP_TEXT@,
            },
    {
        let ghost w = words(args@);
        let n = args.len();
        let x = program_index(args);
        let op: &str = match arg_at(args, x, 1) {
            Some(a) => a.as_str(),
            None => "",
        };
        proof {
            reveal_strlit("");
            assert(""@ =~= Seq::<char>::empty());
        }
        if text_eq(op, "encrypt") || text_eq(op, "decrypt") {
            let operation = if text_eq(op, "encrypt") {
                Operation::Encrypt
            } else {
                Operation::Decrypt
            };
            let second = match arg_at(args, x, 2) {
                Some(a) => a.as_str(),
                None => {
                    return Err(HELP_TEXT);
                },
            };
            let file: &'a str;
            let pass: Pass<'a>;
            if pass_flag(second) {
                pass = match get_pass(second, arg_at(args, x, 3)) {
                    Some(p) => p,
                    None => {
                        return Err(HELP_TEXT);
                    },
                };
                file = match arg_at(args, x, 4) {
                    Some(f) => f.as_str(),
                    None => {
                        return Err(HELP_TEXT);
                    },
                };
            } else {
                file = second;
                if n - x < 4 {
                    return Err(HELP_TEXT);
                }
                pass = match get_pass(args[x + 3].as_str(), arg_at(args, x, 4)) {
                    Some(p) => p,
                    None => {
                        return Err(HELP_TEXT);
                    },
                };
            }
            let replace = has_word(args, "--replace");
            return Ok(
                Config { operation, file: Some(file), pass: Some(pass), saved: None, replace },
            );
        }
        if text_eq(op, "set") {
            let second = match arg_at(args, x, 2) {
                Some(a) => a.as_str(),
                None => {
                    return Err(HELP_TEXT);
                },
            };
            let pass = if text_eq(second, "-p") {
                Pass::Saved { identifier: None }
            } else if text_eq(second, "-m") || text_eq(second, "--master") {
                Pass::Master
            } else {
                return Err(HELP_TEXT);
            };
            return Ok(
                Config {
                    operation: Operation::SetPass,
                    file: None,
                    pass: Some(pass),
                    saved: None,
                    replace: false,
                },
            );
        }
        if text_eq(op, "--help") || text_eq(op, "-h") {
            return Ok(
                Config {
                    operation: Operation::Help(HELP_TEXT),
                    file: None,
                    pass: None,
                    saved: None,
                    replace: false,
                },
            );
        }
        Err(HELP_TEXT)
    }
}

/// The key derived from a password: the SHA-256 digest of its UTF-8 bytes.
fn hash_password(password: &str) -> (r: [u8; 32])
    ensures
        r@ == password_key(password@),
{
    sha256(password.as_bytes())
}

impl<'a> Config<'a> {
    /// What the command asks for.
    pub fn operation(&self) -> (r: &Operation<'a>)
        ensures
            r@ == self@.operation,
    {
        &self.operation
    }

    /// How the command names its key, if it needs one.
    pub fn pass(&self) -> (r: Option<&Pass<'a>>)
        ensures
            match r {
                Some(p) => self@.pass == Some(p@),
                None => self@.pass is None,
            },
    {
        match &self.pass {
            Some(p) => Some(p),
            None => None,
        }
    }

    /// The file to work on, for `encrypt` and `decrypt`.
    pub fn file(&self) -> (r: Option<&str>)
        ensures
            match r {
                Some(f) => self@.file == Some(f@),
                None => self@.file is None,
            },
    {
        self.file
    }

    /// Whether to remove the source file after success.
    pub fn replace(&self) -> (r: bool)
        ensures
            r == self@.replace,
    {
        self.replace
    }

    /// The saved-key store held, to be written back after `set_pass`.
    pub fn saved(&self) -> (r: Option<&SavedConfig>)
        ensures
            match r {
                Some(s) => self@.saved == Some(s@),
                None => self@.saved is None,
            },
    {
        match &self.saved {
            Some(s) => Some(s),
            None => None,
        }
    }

    /// Whether choosing the key needs the saved-key store.
    pub fn needs_saved(&self) -> (r: bool)
        requires
            self@.pass is Some,
        ensures
            r == needs_store(self@.pass->0),
    {
        match &self.pass {
            Some(Pass::Given { .. }) => false,
            _ => true,
        }
    }

    /// Hands over the saved-key store, read by the caller.
    pub fn set_saved(&mut self, saved: SavedConfig)
        ensures
            final(self)@ == (ConfigView { saved: Some(saved@), ..old(self)@ }),
    {
        self.saved = Some(saved);
    }

    /// The key for `encrypt` and `decrypt`: the digest of a given password,
    /// or a key from the saved-key store, which the caller reads and hands
    /// over where it is needed.
    pub fn get_key(&self, saved: Option<&SavedConfig>) -> (r: Result<[u8; 32], &'static str>)
        requires
            self@.pass is Some,
            self@.pass->0 is Saved ==> self@.pass->0->Saved_0 is Some,
            needs_store(self@.pass->0) ==> saved is Some,
        ensures
            match r {
                Ok(k) => key_for(self@.pass->0, match saved {
                    Some(s) => Some(s@),
                    None => None,
                }) == Ok::<Seq<u8>, Seq<char>>(k@),
                Err(m) => key_for(self@.pass->0, match saved {
                    Some(s) => Some(s@),
                    None => None,
                }) == Err::<Seq<u8>, Seq<char>>(m@),
            },
    {
        match &self.pass {
            Some(Pass::Given { given }) => Ok(hash_password(given)),
            Some(Pass::Saved { identifier }) => {
                let saved = match saved {
                    Some(s) => s,
                    None => {
                        return Err(NO_SAVED_PASSWORDS);
                    },
                };
                let id = match identifier {
                    Some(id) => *id,
                    None => {
                        return Err(NO_SUCH_IDENTIFIER);
                    },
                };
                match &saved.keys {
                    Some(_) => match saved.search(id) {
                        Some(k) => Ok(k),
                        None => Err(NO_SUCH_IDENTIFIER),
                    },
                    None => Err(NO_SAVED_PASSWORDS),
                }
            },
            _ => {
                let saved = match saved {
                    Some(s) => s,
                    None => {
                        return Err(NO_MASTER_PASSWORD);
                    },
                };
                match saved.master {
                    Some(m) => Ok(m),
                    None => Err(NO_MASTER_PASSWORD),
                }
            },
        }
    }

    /// For `set`, saves the key of `password` in the store held: as the
    /// master key, or under `id` after the keys already saved. Does nothing
    /// for other operations.
    pub fn set_pass(&mut self, pass: String, id: Option<String>)
        requires
            old(self)@.operation is SetPass && old(self)@.pass is Some ==> old(self)@.saved is Some,
            old(self)@.operation is SetPass && old(self)@.pass is Some && old(self)@.pass->0 is Saved ==> id is Some,
        ensures
            if old(self)@.operation is SetPass && old(self)@.pass is Some && !(old(self)@.pass->0 is Given) {
                final(self)@ == (ConfigView {
                    saved: Some(stored(old(self)@.saved->0, old(self)@.pass->0, pass@, match id {
                        Some(i) => i@,
                        None => Seq::empty(),
                    })),
                    ..old(self)@
                })
            } else {
                final(self)@ == old(self)@
            },
    {
        if let Operation::SetPass = self.operation {
            let key = hash_password(pass.as_str());
            match &self.pass {
                Some(Pass::Master) => {
                    let mut saved = match self.saved.take() {
                        Some(s) => s,
                        None => {
                            return;
                        },
                    };
                    saved.master = Some(key);
                    self.saved = Some(saved);
                },
                Some(Pass::Saved { .. }) => {
                    let mut saved = match self.saved.take() {
                        Some(s) => s,
                        None => {
                            return;
                        },
                    };
                    let identifier = match id {
                        Some(i) => i,
                        None => {
                            self.saved = Some(saved);
                            return;
                        },
                    };
                    let ghost earlier = match saved@.keys {
                        Some(k) => k,
                        None => Seq::empty(),
                    };
                    let mut keys = match saved.keys {
                        Some(keys) => keys,
                        None => Vec::new(),
                    };
                    let ghost added = KeyView { key: key@, identifier: identifier@ };
                    keys.push(Key { key, identifier });
                    assert(keys_view(keys@) =~= earlier.push(added));
                    saved.keys = Some(keys);
                    self.saved = Some(saved);
                },
                _ => {},
            }
        }
    }
}

} // verus!
