//! What is known before a compilation starts: the modules of the runtime,
//! and the texts of the source modules that can be included.
use vstd::prelude::*;
use vstd::string::StringExecFns;
use crate::code_gen::builder::NativeModule;
use crate::code_gen::table::{find_key, keys_of, lookup, put, string_keys};
use crate::text::str_eq;

verus! {

/// The table of what can be registered during a compilation.
#[derive(Debug)]
pub struct NativeRegistry {
    natives: Vec<(String, NativeModule)>,
    sources: Vec<(String, String)>,
}

pub struct RegistryView {
    /// The modules of the runtime, by the names under which they are asked for.
    pub natives: Seq<(Seq<char>, NativeModule)>,
    /// The texts of the source modules, by their include paths.
    pub sources: Seq<(Seq<char>, Seq<char>)>,
}

/// The view of a table of modules of the runtime.
pub open spec fn native_table(entries: Seq<(String, NativeModule)>) -> Seq<
    (Seq<char>, NativeModule),
> {
    Seq::new(entries.len(), |i: int| (entries[i].0@, entries[i].1))
}

/// The view of a table of source texts.
pub open spec fn source_table(entries: Seq<(String, String)>) -> Seq<(Seq<char>, Seq<char>)> {
    Seq::new(entries.len(), |i: int| (entries[i].0@, entries[i].1@))
}

impl View for NativeRegistry {
    type V = RegistryView;

    closed spec fn view(&self) -> RegistryView {
        RegistryView { natives: native_table(self.natives@), sources: source_table(self.sources@) }
    }
}

impl RegistryView {
    pub open spec fn empty() -> RegistryView {
        RegistryView { natives: Seq::empty(), sources: Seq::empty() }
    }
}

/// The module of the runtime that a file of the runtime's directory stands
/// for: the file `io.rs` for the module `io`.
pub open spec fn native_module_of(file_name: Seq<char>) -> Option<(Seq<char>, NativeModule)> {
    if file_name == "io.rs"@ {
        Some(("io"@, NativeModule::Io))
    } else {
        None
    }
}

/// The registry after the files from index `from` on were looked at.
pub open spec fn registry_of(file_names: Seq<Seq<char>>, from: int, so_far: RegistryView) -> RegistryView
    decreases file_names.len() - from,
{
    if from < 0 || from >= file_names.len() {
        so_far
    } else {
        match native_module_of(file_names[from]) {
            Some((name, module)) => registry_of(
                file_names,
                from + 1,
                RegistryView { natives: put(so_far.natives, name, module), ..so_far },
            ),
            None => registry_of(file_names, from + 1, so_far),
        }
    }
}

/// The path of the file that holds the source module `path`: the dots are
/// path separators, and the extension of source files follows.
pub open spec fn include_file_path(path: Seq<char>) -> Seq<char> {
    Seq::new(
        path.len(),
        |i: int|
            if path[i] == '.' {
                '/'
            } else {
                path[i]
            },
    ) + ".adn"@
}

impl NativeRegistry {
    /// A registry that knows nothing.
    pub fn new() -> (r: NativeRegistry)
        ensures
            r@ == RegistryView::empty(),
    {
        let r = NativeRegistry { natives: Vec::new(), sources: Vec::new() };
        assert(r@.natives =~= Seq::empty());
        assert(r@.sources =~= Seq::empty());
        r
    }

    /// Makes `module` known under `name`.
    pub fn register(&mut self, name: String, module: NativeModule)
        ensures
            final(self)@ == (RegistryView {
                natives: put(old(self)@.natives, name@, module),
                ..old(self)@
            }),
    {
        assert(keys_of(self@.natives) =~= string_keys(self.natives@));
        match find_key(&self.natives, name.as_str()) {
            Some(i) => {
                self.natives[i] = (name, module);
                assert(self@.natives =~= old(self)@.natives.update(i as int, (name@, module)));
            },
            None => {
                self.natives.push((name, module));
                assert(self@.natives =~= old(self)@.natives.push((name@, module)));
            },
        }
        assert(self@.sources =~= old(self)@.sources);
    }

    /// Makes the text of a source module known under its include path.
    pub fn add_source(&mut self, path: String, text: String)
        ensures
            final(self)@ == (RegistryView {
                sources: put(old(self)@.sources, path@, text@),
                ..old(self)@
            }),
    {
        assert(keys_of(self@.sources) =~= string_keys(self.sources@));
        match find_key(&self.sources, path.as_str()) {
            Some(i) => {
                self.sources[i] = (path, text);
                assert(self@.sources =~= old(self)@.sources.update(i as int, (path@, text@)));
            },
            None => {
                self.sources.push((path, text));
                assert(self@.sources =~= old(self)@.sources.push((path@, text@)));
            },
        }
        assert(self@.natives =~= old(self)@.natives);
    }

    /// The module of the runtime that is known under `name`.
    pub fn native(&self, name: &str) -> (r: Option<NativeModule>)
        ensures
            r == lookup(self@.natives, name@),
    {
        assert(keys_of(self@.natives) =~= string_keys(self.natives@));
        match find_key(&self.natives, name) {
            Some(i) => Some(self.natives[i].1),
            None => None,
        }
    }

    /// The text of the source module that is known under `path`.
    pub fn source(&self, path: &str) -> (r: Option<&String>)
        ensures
            match lookup(self@.sources, path@) {
                Some(text) => r matches Some(s) && s@ == text,
                None => r is None,
            },
    {
        assert(keys_of(self@.sources) =~= string_keys(self.sources@));
        match find_key(&self.sources, path) {
            Some(i) => Some(&self.sources[i].1),
            None => None,
        }
    }
}

/// The module of the runtime that a file of the runtime's directory stands for.
pub fn native_module_for(file_name: &str) -> (r: Option<(&'static str, NativeModule)>)
    ensures
        match native_module_of(file_name@) {
            Some((name, module)) => r matches Some((n, m)) && n@ == name && m == module,
            None => r is None,
        },
{
    if str_eq(file_name, "io.rs") {
        Some(("io", NativeModule::Io))
    } else {
        None
    }
}

} // verus!
