//! The request builder: it collects what is to be compiled and resolves
//! its target against a catalog.

use crate::catalog::Wandbox;
use crate::compiler::LanguageView;
use crate::error::{
    lemma_explanations_differ, WandboxError, NO_DEFAULT_COMPILER, NO_LANGUAGE_FOR_COMPILER,
    UNKNOWN_TARGET,
};
use crate::lookup::{
    default_compiler_of, knows_compiler, knows_language, language_of, lemma_language_of,
};
use crate::text::{join, joined, texts, trim_owned, trimmed};
use vstd::prelude::*;

verus! {

/// How a catalog reads a target.
pub enum Resolution {
    /// The target names a language, and `compiler` is its default compiler.
    Language { compiler: Seq<char> },
    /// The target names a compiler of the language `language`.
    Compiler { language: Seq<char> },
    /// The target names a language that holds no compiler.
    NoDefaultCompiler,
    /// The target names neither a language nor a compiler.
    NotFound,
}

/// Reads a target against a catalog. A target that names a language is
/// read as that language, also where a compiler has the same name; only a
/// target that names no language is looked up among the compilers.
pub open spec fn resolve(groups: Seq<LanguageView>, target: Seq<char>) -> Resolution {
    if knows_language(groups, target) {
        match default_compiler_of(groups, target) {
            Some(compiler) => Resolution::Language { compiler },
            None => Resolution::NoDefaultCompiler,
        }
    } else {
        match language_of(groups, target) {
            Some(language) => Resolution::Compiler { language },
            None => Resolution::NotFound,
        }
    }
}

/// A target that names a language is never read as a compiler: it
/// resolves to the language's default compiler, or fails for want of one.
pub proof fn lemma_language_comes_first(groups: Seq<LanguageView>, target: Seq<char>)
    requires
        knows_language(groups, target),
    ensures
        !(resolve(groups, target) is Compiler),
        !(resolve(groups, target) is NotFound),
        match default_compiler_of(groups, target) {
            Some(compiler) => resolve(groups, target) == (Resolution::Language { compiler }),
            None => resolve(groups, target) == Resolution::NoDefaultCompiler,
        },
{
}

/// A target that names no language resolves exactly when it names a
/// compiler, and then to the first group that holds that compiler.
pub proof fn lemma_compiler_comes_second(groups: Seq<LanguageView>, target: Seq<char>)
    requires
        !knows_language(groups, target),
    ensures
        knows_compiler(groups, target) ==> resolve(groups, target) == (Resolution::Compiler {
            language: language_of(groups, target).unwrap(),
        }),
        !knows_compiler(groups, target) ==> resolve(groups, target) == Resolution::NotFound,
{
    lemma_language_of(groups, target);
}

/// The explanation of the error with which a reading fails, if it fails.
pub open spec fn failure(reading: Resolution) -> Option<Seq<char>> {
    match reading {
        Resolution::NoDefaultCompiler => Some(NO_DEFAULT_COMPILER@),
        Resolution::NotFound => Some(UNKNOWN_TARGET@),
        _ => None,
    }
}

/// A request in the making.
pub struct CompilationBuilder {
    target: String,
    lang: String,
    compiler: String,
    code: String,
    stdin: String,
    options: Vec<String>,
    compiler_options_raw: String,
    save: bool,
}

/// What a [`CompilationBuilder`] holds, as plain mathematical values.
pub struct BuilderView {
    pub target: Seq<char>,
    pub lang: Seq<char>,
    pub compiler: Seq<char>,
    pub code: Seq<char>,
    pub stdin: Seq<char>,
    pub options: Seq<Seq<char>>,
    pub compiler_options_raw: Seq<char>,
    pub save: bool,
}

impl View for CompilationBuilder {
    type V = BuilderView;

    closed spec fn view(&self) -> BuilderView {
        BuilderView {
            target: self.target@,
            lang: self.lang@,
            compiler: self.compiler@,
            code: self.code@,
            stdin: self.stdin@,
            options: texts(self.options@),
            compiler_options_raw: self.compiler_options_raw@,
            save: self.save,
        }
    }
}

impl Default for CompilationBuilder {
    /// A builder with nothing set, as `new` gives it.
    fn default() -> (builder: CompilationBuilder)
        ensures
            builder@ == unset(),
    {
        CompilationBuilder::new()
    }
}

/// The request that a builder stands for, as it is sent to the service.
#[derive(Debug)]
pub struct CompilationRequest {
    pub lang: String,
    pub compiler: String,
    pub code: String,
    pub stdin: String,
    pub compiler_options_raw: String,
    pub save: bool,
}

/// What a builder holds before anything is set: every text empty, no
/// options, and no wish to have the compilation saved.
pub open spec fn unset() -> BuilderView {
    BuilderView {
        target: Seq::empty(),
        lang: Seq::empty(),
        compiler: Seq::empty(),
        code: Seq::empty(),
        stdin: Seq::empty(),
        options: Seq::empty(),
        compiler_options_raw: Seq::empty(),
        save: false,
    }
}

/// What a builder holds once its target has been read: the options are
/// joined by line feeds, and a reading that succeeds sets language and
/// compiler.
pub open spec fn built(before: BuilderView, reading: Resolution) -> BuilderView {
    let joint = BuilderView {
        compiler_options_raw: joined(before.options, "\n"@),
        ..before
    };
    match reading {
        Resolution::Language { compiler } => BuilderView {
            lang: before.target,
            compiler,
            ..joint
        },
        Resolution::Compiler { language } => BuilderView {
            lang: language,
            compiler: before.target,
            ..joint
        },
        _ => joint,
    }
}

/// The contents of a sequence of string slices, in the same order.
pub open spec fn slice_texts(parts: Seq<&str>) -> Seq<Seq<char>> {
    parts.map_values(|s: &str| s@)
}

impl CompilationBuilder {
    /// A builder with nothing set.
    pub fn new() -> (builder: CompilationBuilder)
        ensures
            builder@ == unset(),
    {
        let builder = CompilationBuilder {
            target: String::new(),
            lang: String::new(),
            compiler: String::new(),
            code: String::new(),
            stdin: String::new(),
            options: Vec::new(),
            compiler_options_raw: String::new(),
            save: false,
        };
        assert(texts(builder.options@) =~= Seq::<Seq<char>>::empty());
        builder
    }

    /// The language selected by the last successful `build`.
    pub fn lang(&self) -> (lang: &str)
        ensures
            lang@ == self@.lang,
    {
        self.lang.as_str()
    }

    /// Sets the target, a language or a compiler, without the white space
    /// around it.
    pub fn target(&mut self, target: &str)
        ensures
            final(self)@ == (BuilderView { target: trimmed(target@), ..old(self)@ }),
    {
        self.target = trim_owned(target);
    }

    /// Sets the code to compile, without the white space around it.
    pub fn code(&mut self, code: &str)
        ensures
            final(self)@ == (BuilderView { code: trimmed(code@), ..old(self)@ }),
    {
        self.code = trim_owned(code);
    }

    /// Sets the program's input, without the white space around it.
    pub fn stdin(&mut self, stdin: &str)
        ensures
            final(self)@ == (BuilderView { stdin: trimmed(stdin@), ..old(self)@ }),
    {
        self.stdin = trim_owned(stdin);
    }

    /// Says whether the service is to save the compilation.
    pub fn save(&mut self, save: bool)
        ensures
            final(self)@ == (BuilderView { save, ..old(self)@ }),
    {
        self.save = save;
    }

    /// Sets the compiler options.
    pub fn options(&mut self, options: Vec<String>)
        ensures
            final(self)@ == (BuilderView { options: texts(options@), ..old(self)@ }),
    {
        self.options = options;
    }

    /// Sets the compiler options from string slices.
    pub fn options_str(&mut self, options: Vec<&str>)
        ensures
            final(self)@ == (BuilderView { options: slice_texts(options@), ..old(self)@ }),
    {
        let mut owned: Vec<String> = Vec::new();
        for i in 0..options.len()
            invariant
                texts(owned@) == slice_texts(options@).take(i as int),
        {
            let ghost copied = texts(owned@);
            owned.push(options[i].to_owned());
            assert(texts(owned@) =~= copied.push(options@[i as int]@));
            assert(slice_texts(options@).take(i + 1) =~= copied.push(options@[i as int]@));
        }
        assert(slice_texts(options@).take(options@.len() as int) =~= slice_texts(options@));
        self.options = owned;
    }

    /// Resolves the target against a catalog and so completes the request.
    ///
    /// The options are joined by line feeds in any case. A target that
    /// names a language selects that language and its default compiler; one
    /// that names no language but a compiler selects that compiler and the
    /// language that holds it. Otherwise the call fails and the language
    /// and compiler selected so far stay as they are. A compiler that is
    /// known always has a language, so the call never fails for want of one.
    pub fn build(&mut self, wb: &Wandbox) -> (done: Result<(), WandboxError>)
        ensures
            final(self)@ == built(old(self)@, resolve(wb@, old(self)@.target)),
            match done {
                Ok(_) => failure(resolve(wb@, old(self)@.target)) is None,
                Err(e) => failure(resolve(wb@, old(self)@.target)) == Some(e@),
            },
            done is Ok && knows_language(wb@, old(self)@.target)
                ==> final(self)@.lang == old(self)@.target
                && Some(final(self)@.compiler) == default_compiler_of(wb@, old(self)@.target),
            !knows_language(wb@, old(self)@.target) && !knows_compiler(wb@, old(self)@.target)
                ==> done is Err
                && final(self)@.lang == old(self)@.lang
                && final(self)@.compiler == old(self)@.compiler,
            done matches Err(e) ==> e@ != NO_LANGUAGE_FOR_COMPILER@,
    {
        proof {
            lemma_explanations_differ();
        }
        self.compiler_options_raw = join(&self.options, "\n");

        if wb.is_valid_language(self.target.as_str()) {
            let comp = match wb.try_default_compiler(self.target.as_str()) {
                Some(def) => def,
                None => return Err(WandboxError::new(NO_DEFAULT_COMPILER)),
            };
            self.compiler = comp;
            self.lang = self.target.clone();
        } else if wb.is_valid_compiler_str(self.target.as_str()) {
            let lang = match wb.get_compiler_language_str(self.target.as_str()) {
                Some(lang) => lang,
                None => return Err(WandboxError::new(NO_LANGUAGE_FOR_COMPILER)),
            };
            self.lang = lang;
            self.compiler = self.target.clone();
        } else {
            proof {
                lemma_language_of(wb@, self.target@);
            }
            return Err(WandboxError::new(UNKNOWN_TARGET));
        }
        Ok(())
    }

    /// The request as it stands. Before a successful `build` its language
    /// and compiler are whatever was selected last, or empty.
    pub fn request(&self) -> (request: CompilationRequest)
        ensures
            request.lang@ == self@.lang,
            request.compiler@ == self@.compiler,
            request.code@ == self@.code,
            request.stdin@ == self@.stdin,
            request.compiler_options_raw@ == self@.compiler_options_raw,
            request.save == self@.save,
    {
        CompilationRequest {
            lang: self.lang.clone(),
            compiler: self.compiler.clone(),
            code: self.code.clone(),
            stdin: self.stdin.clone(),
            compiler_options_raw: self.compiler_options_raw.clone(),
            save: self.save,
        }
    }
}

} // verus!
