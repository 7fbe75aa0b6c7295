//! Languages, compile options, and what each kind of output asks for.

use vstd::prelude::*;
use vstd::string::*;
use crate::bytes::{bytes_eq, bytes_of, copy_list, extend, to_bytes, views};
use crate::path::{extension, spec_extension};

verus! {

/// The language of a translation unit, and with it the compiler driver that
/// takes it.
#[derive(Debug, PartialEq, Eq, Clone, Copy, Structural)]
pub enum Compiler {
    C,
    Cpp,
}

impl Compiler {
    /// The language that the extension of `file` stands for: `c` is C; `cpp`,
    /// `cc` and `cxx`, in lower or in upper case, are C++. Any other
    /// extension, a lone upper-case `C` among them, stands for none.
    pub open spec fn of_file(file: Seq<u8>) -> Option<Compiler> {
        match spec_extension(file) {
            None => None,
            Some(ext) => if ext == bytes_of("c") {
                Some(Compiler::C)
            } else if ext == bytes_of("cpp") || ext == bytes_of("cc") || ext == bytes_of("cxx")
                || ext == bytes_of("CPP") || ext == bytes_of("CC") || ext == bytes_of("CXX") {
                Some(Compiler::Cpp)
            } else {
                None
            },
        }
    }

    /// Determines the language of a source file from its extension.
    pub fn determine_from_file(file: &[u8]) -> (r: Option<Compiler>)
        ensures
            r == Compiler::of_file(file@),
    {
        match extension(file) {
            None => None,
            Some(ext) => {
                let ext = ext.as_slice();
                if bytes_eq(ext, "c".as_bytes()) {
                    Some(Compiler::C)
                } else if bytes_eq(ext, "cpp".as_bytes()) || bytes_eq(ext, "cc".as_bytes())
                    || bytes_eq(ext, "cxx".as_bytes()) || bytes_eq(ext, "CPP".as_bytes())
                    || bytes_eq(ext, "CC".as_bytes()) || bytes_eq(ext, "CXX".as_bytes()) {
                    Some(Compiler::Cpp)
                } else {
                    None
                }
            },
        }
    }
}

/// Options for the compiler: those for every unit, those for C units only
/// and those for C++ units only.
#[derive(Debug)]
pub struct CompileOptions {
    pub common: Vec<Vec<u8>>,
    pub c: Vec<Vec<u8>>,
    pub cpp: Vec<Vec<u8>>,
}

/// The three lists of `CompileOptions` as sequences of byte strings.
#[verifier::ext_equal]
pub struct CompileOptionsView {
    pub common: Seq<Seq<u8>>,
    pub c: Seq<Seq<u8>>,
    pub cpp: Seq<Seq<u8>>,
}

impl CompileOptionsView {
    /// The options that apply to a unit in the given language: the common
    /// ones, then those of the language.
    pub open spec fn all(self, compiler: Compiler) -> Seq<Seq<u8>> {
        match compiler {
            Compiler::C => self.common + self.c,
            Compiler::Cpp => self.common + self.cpp,
        }
    }

    /// These options followed, list by list, by those of `more`.
    pub open spec fn followed_by(self, more: CompileOptionsView) -> CompileOptionsView {
        CompileOptionsView {
            common: self.common + more.common,
            c: self.c + more.c,
            cpp: self.cpp + more.cpp,
        }
    }

    /// No options at all.
    pub open spec fn empty() -> CompileOptionsView {
        CompileOptionsView { common: Seq::empty(), c: Seq::empty(), cpp: Seq::empty() }
    }

    /// The options of a release build: `-O2` for every unit.
    pub open spec fn release() -> CompileOptionsView {
        CompileOptionsView { common: seq![bytes_of("-O2")], c: Seq::empty(), cpp: Seq::empty() }
    }

    /// The options of a debug build: `-g` and `-DDEBUG` for every unit.
    pub open spec fn debug() -> CompileOptionsView {
        CompileOptionsView {
            common: seq![bytes_of("-g"), bytes_of("-DDEBUG")],
            c: Seq::empty(),
            cpp: Seq::empty(),
        }
    }
}

impl View for CompileOptions {
    type V = CompileOptionsView;

    open spec fn view(&self) -> CompileOptionsView {
        CompileOptionsView {
            common: views(self.common@),
            c: views(self.c@),
            cpp: views(self.cpp@),
        }
    }
}

impl Default for CompileOptions {
    fn default() -> (r: CompileOptions)
        ensures
            r@ == CompileOptionsView::empty(),
    {
        let none: Vec<Vec<u8>> = Vec::new();
        assert(views(none@) =~= Seq::<Seq<u8>>::empty());
        CompileOptions::only_common(none)
    }
}

impl CompileOptions {
    /// The options that apply to a unit in the given language, in order: the
    /// common ones, then those of the language.
    pub fn all(&self, compiler: Compiler) -> (r: Vec<Vec<u8>>)
        ensures
            views(r@) == self@.all(compiler),
    {
        let mut r = copy_list(&self.common);
        match compiler {
            Compiler::C => extend(&mut r, &self.c),
            Compiler::Cpp => extend(&mut r, &self.cpp),
        }
        r
    }

    /// Options that hold for every unit, whatever its language.
    pub fn only_common(options: Vec<Vec<u8>>) -> (r: CompileOptions)
        ensures
            r@.common == views(options@),
            r@.c == Seq::<Seq<u8>>::empty(),
            r@.cpp == Seq::<Seq<u8>>::empty(),
    {
        let r = CompileOptions { common: options, c: Vec::new(), cpp: Vec::new() };
        assert(r@.c =~= Seq::<Seq<u8>>::empty());
        assert(r@.cpp =~= Seq::<Seq<u8>>::empty());
        r
    }

    /// The options of a release build.
    pub fn release() -> (r: CompileOptions)
        ensures
            r@ == CompileOptionsView::release(),
    {
        let mut common: Vec<Vec<u8>> = Vec::new();
        common.push(to_bytes("-O2"));
        assert(views(common@) =~= seq![bytes_of("-O2")]);
        CompileOptions::only_common(common)
    }

    /// The options of a debug build.
    pub fn debug() -> (r: CompileOptions)
        ensures
            r@ == CompileOptionsView::debug(),
    {
        let mut common: Vec<Vec<u8>> = Vec::new();
        common.push(to_bytes("-g"));
        common.push(to_bytes("-DDEBUG"));
        assert(views(common@) =~= seq![bytes_of("-g"), bytes_of("-DDEBUG")]);
        CompileOptions::only_common(common)
    }

    /// Appends the options of `more` to these, list by list.
    pub fn append(&mut self, more: &CompileOptions)
        ensures
            final(self)@ == old(self)@.followed_by(more@),
    {
        extend(&mut self.common, &more.common);
        extend(&mut self.c, &more.c);
        extend(&mut self.cpp, &more.cpp);
    }

    /// A copy of these options.
    pub fn duplicate(&self) -> (r: CompileOptions)
        ensures
            r@ == self@,
    {
        CompileOptions {
            common: copy_list(&self.common),
            c: copy_list(&self.c),
            cpp: copy_list(&self.cpp),
        }
    }
}

/// How a library is linked.
#[derive(Debug, PartialEq, Eq, Clone, Copy, Structural)]
pub enum LibraryType {
    Static,
    Dynamic,
}

/// What one kind of output asks for: the extension of the artifact and the
/// options that its units and its link step cannot do without.
#[derive(Debug)]
pub struct TargetSpec {
    pub extension: Vec<u8>,
    pub required_compile_options: CompileOptions,
    pub required_link_options: Vec<Vec<u8>>,
}

/// A `TargetSpec` as sequences of byte strings.
#[verifier::ext_equal]
pub struct TargetSpecView {
    pub extension: Seq<u8>,
    pub required_compile_options: CompileOptionsView,
    pub required_link_options: Seq<Seq<u8>>,
}

impl View for TargetSpec {
    type V = TargetSpecView;

    open spec fn view(&self) -> TargetSpecView {
        TargetSpecView {
            extension: self.extension@,
            required_compile_options: self.required_compile_options@,
            required_link_options: views(self.required_link_options@),
        }
    }
}

/// The three kinds of output of one operating system.
#[derive(Debug)]
pub struct OsSpec {
    pub bin_spec: TargetSpec,
    pub static_lib_spec: TargetSpec,
    pub dynamic_lib_spec: TargetSpec,
}

/// An `OsSpec` as sequences of byte strings.
#[verifier::ext_equal]
pub struct OsSpecView {
    pub bin_spec: TargetSpecView,
    pub static_lib_spec: TargetSpecView,
    pub dynamic_lib_spec: TargetSpecView,
}

impl OsSpecView {
    /// Linux: a binary has no extension and asks for nothing; a static
    /// library has the extension `a`; a dynamic library has the extension
    /// `so`, is compiled with `-fPIC` and linked with `-shared`.
    pub open spec fn linux() -> OsSpecView {
        OsSpecView {
            bin_spec: TargetSpecView {
                extension: Seq::empty(),
                required_compile_options: CompileOptionsView::empty(),
                required_link_options: Seq::empty(),
            },
            static_lib_spec: TargetSpecView {
                extension: bytes_of("a"),
                required_compile_options: CompileOptionsView::empty(),
                required_link_options: Seq::empty(),
            },
            dynamic_lib_spec: TargetSpecView {
                extension: bytes_of("so"),
                required_compile_options: CompileOptionsView {
                    common: seq![bytes_of("-fPIC")],
                    c: Seq::empty(),
                    cpp: Seq::empty(),
                },
                required_link_options: seq![bytes_of("-shared")],
            },
        }
    }

    /// The spec of a library that is linked in the given way.
    pub open spec fn library(self, linkage: LibraryType) -> TargetSpecView {
        match linkage {
            LibraryType::Static => self.static_lib_spec,
            LibraryType::Dynamic => self.dynamic_lib_spec,
        }
    }
}

impl View for OsSpec {
    type V = OsSpecView;

    open spec fn view(&self) -> OsSpecView {
        OsSpecView {
            bin_spec: self.bin_spec@,
            static_lib_spec: self.static_lib_spec@,
            dynamic_lib_spec: self.dynamic_lib_spec@,
        }
    }
}

impl OsSpec {
    /// The kinds of output of Linux.
    pub fn linux() -> (r: OsSpec)
        ensures
            r@ == OsSpecView::linux(),
    {
        let mut pic: Vec<Vec<u8>> = Vec::new();
        pic.push(to_bytes("-fPIC"));
        assert(views(pic@) =~= seq![bytes_of("-fPIC")]);
        let mut shared: Vec<Vec<u8>> = Vec::new();
        shared.push(to_bytes("-shared"));
        assert(views(shared@) =~= seq![bytes_of("-shared")]);
        let none: Vec<Vec<u8>> = Vec::new();
        assert(views(none@) =~= Seq::<Seq<u8>>::empty());
        let also_none: Vec<Vec<u8>> = Vec::new();
        assert(views(also_none@) =~= Seq::<Seq<u8>>::empty());
        OsSpec {
            bin_spec: TargetSpec {
                extension: Vec::new(),
                required_compile_options: CompileOptions::default(),
                required_link_options: none,
            },
            static_lib_spec: TargetSpec {
                extension: to_bytes("a"),
                required_compile_options: CompileOptions::default(),
                required_link_options: also_none,
            },
            dynamic_lib_spec: TargetSpec {
                extension: to_bytes("so"),
                required_compile_options: CompileOptions::only_common(pic),
                required_link_options: shared,
            },
        }
    }
}

/// A kind of target: it knows which of the three specs of an operating
/// system is its own.
pub trait TargetKind {
    /// What a target of this kind needs besides the operating system to find
    /// its spec.
    type TargetOptions;

    /// The spec of a target of this kind.
    spec fn spec_of(os: OsSpecView, options: Self::TargetOptions) -> TargetSpecView;

    /// Picks the spec of a target of this kind.
    fn get_spec(os: &OsSpec, options: Self::TargetOptions) -> (r: &TargetSpec)
        ensures
            r@ == Self::spec_of(os@, options),
    ;
}

/// The kind of executables.
#[derive(Debug)]
pub enum BinTarget {
    Bin,
}

impl TargetKind for BinTarget {
    type TargetOptions = ();

    open spec fn spec_of(os: OsSpecView, options: ()) -> TargetSpecView {
        os.bin_spec
    }

    fn get_spec(os: &OsSpec, _options: ()) -> (r: &TargetSpec) {
        &os.bin_spec
    }
}

/// The kind of libraries.
#[derive(Debug)]
pub enum LibTarget {
    Lib,
}

impl TargetKind for LibTarget {
    type TargetOptions = LibraryType;

    open spec fn spec_of(os: OsSpecView, options: LibraryType) -> TargetSpecView {
        os.library(options)
    }

    fn get_spec(os: &OsSpec, options: LibraryType) -> (r: &TargetSpec) {
        match options {
            LibraryType::Static => &os.static_lib_spec,
            LibraryType::Dynamic => &os.dynamic_lib_spec,
        }
    }
}

} // verus!
