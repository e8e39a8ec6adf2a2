//! Compiler records and the language groups that hold them.

use vstd::prelude::*;
use vstd::std_specs::cmp::PartialEqSpecImpl;
use vstd::string::StringExecFns;

verus! {

/// One compiler offered by the service.
#[derive(Debug, Hash)]
pub struct Compiler {
    pub compiler_option_raw: bool,
    pub display_compile_command: String,
    pub runtime_option_raw: bool,
    pub version: String,
    pub language: String,
    pub name: String,
}

/// What a [`Compiler`] holds, as plain mathematical values.
pub struct CompilerView {
    pub compiler_option_raw: bool,
    pub display_compile_command: Seq<char>,
    pub runtime_option_raw: bool,
    pub version: Seq<char>,
    pub language: Seq<char>,
    pub name: Seq<char>,
}

impl View for Compiler {
    type V = CompilerView;

    open spec fn view(&self) -> CompilerView {
        CompilerView {
            compiler_option_raw: self.compiler_option_raw,
            display_compile_command: self.display_compile_command@,
            runtime_option_raw: self.runtime_option_raw,
            version: self.version@,
            language: self.language@,
            name: self.name@,
        }
    }
}

impl Clone for Compiler {
    fn clone(&self) -> (copy: Self)
        ensures
            copy == *self,
    {
        Compiler {
            compiler_option_raw: self.compiler_option_raw,
            display_compile_command: self.display_compile_command.clone(),
            runtime_option_raw: self.runtime_option_raw,
            version: self.version.clone(),
            language: self.language.clone(),
            name: self.name.clone(),
        }
    }
}

impl PartialEq for Compiler {
    /// Two compilers are equal when they agree in every field.
    fn eq(&self, other: &Compiler) -> (same: bool) {
        self.compiler_option_raw == other.compiler_option_raw && self.display_compile_command
            == other.display_compile_command && self.runtime_option_raw
            == other.runtime_option_raw && self.version == other.version && self.language
            == other.language && self.name == other.name
    }
}

impl PartialEqSpecImpl for Compiler {
    open spec fn obeys_eq_spec() -> bool {
        true
    }

    open spec fn eq_spec(&self, other: &Compiler) -> bool {
        self@ == other@
    }
}

impl Eq for Compiler {

}

impl Compiler {
    /// One line on the compiler: name and version in square brackets, then
    /// a colon and the language.
    pub fn describe(&self) -> (line: String)
        ensures
            line@ == "["@ + self.name@ + " "@ + self.version@ + "] : "@ + self.language@,
    {
        let mut line = "[".to_owned();
        line.append(self.name.as_str());
        line.append(" ");
        line.append(self.version.as_str());
        line.append("] : ");
        line.append(self.language.as_str());
        line
    }
}

/// The views of a sequence of compilers, in the same order.
pub open spec fn compiler_views(compilers: Seq<Compiler>) -> Seq<CompilerView> {
    compilers.map_values(|c: Compiler| c@)
}

/// The views of an optional list of compilers.
pub open spec fn listed(compilers: Option<Vec<Compiler>>) -> Option<Seq<CompilerView>> {
    match compilers {
        Some(list) => Some(compiler_views(list@)),
        None => None,
    }
}

/// A language together with its compilers, in the order in which the
/// service listed them. The first compiler is the language's default.
#[derive(Debug, Hash)]
pub struct Language {
    pub name: String,
    pub compilers: Vec<Compiler>,
}

/// What a [`Language`] holds, as plain mathematical values.
pub struct LanguageView {
    pub name: Seq<char>,
    pub compilers: Seq<CompilerView>,
}

impl View for Language {
    type V = LanguageView;

    open spec fn view(&self) -> LanguageView {
        LanguageView { name: self.name@, compilers: compiler_views(self.compilers@) }
    }
}

impl Clone for Language {
    fn clone(&self) -> (copy: Self)
        ensures
            copy@ == self@,
    {
        let copy = Language { name: self.name.clone(), compilers: self.compilers.clone() };
        assert(compiler_views(copy.compilers@) =~= compiler_views(self.compilers@));
        copy
    }
}

impl PartialEq for Language {
    /// Two groups are equal when they have the same name and hold equal
    /// compilers in the same order.
    fn eq(&self, other: &Language) -> (same: bool) {
        if !(self.name == other.name) || self.compilers.len() != other.compilers.len() {
            assert(self@.name != other@.name || self@.compilers.len() != other@.compilers.len());
            return false;
        }
        for i in 0..self.compilers.len()
            invariant
                self.name@ == other.name@,
                self.compilers@.len() == other.compilers@.len(),
                forall|j: int| 0 <= j < i ==> self.compilers@[j]@ == other.compilers@[j]@,
        {
            if !(self.compilers[i] == other.compilers[i]) {
                assert(self@.compilers[i as int] != other@.compilers[i as int]);
                return false;
            }
        }
        assert(self@.compilers =~= other@.compilers);
        true
    }
}

impl PartialEqSpecImpl for Language {
    open spec fn obeys_eq_spec() -> bool {
        true
    }

    open spec fn eq_spec(&self, other: &Language) -> bool {
        self@ == other@
    }
}

impl Eq for Language {

}

/// The test "this compiler is not called `name`".
pub open spec fn not_named(name: Seq<char>) -> spec_fn(CompilerView) -> bool {
    |c: CompilerView| c.name != name
}

impl Language {
    /// Removes every compiler called `str` from the group and keeps the
    /// others in their order.
    pub fn remove_compiler(&mut self, str: &str)
        ensures
            final(self)@ == (LanguageView {
                name: old(self)@.name,
                compilers: old(self)@.compilers.filter(not_named(str@)),
            }),
    {
        let ghost before = compiler_views(self.compilers@);
        let mut kept: Vec<Compiler> = Vec::new();
        assert(compiler_views(kept@) =~= before.take(0).filter(not_named(str@))) by {
            reveal(Seq::filter);
        }
        for i in 0..self.compilers.len()
            invariant
                before == compiler_views(self.compilers@),
                compiler_views(kept@) == before.take(i as int).filter(not_named(str@)),
        {
            proof {
                reveal(Seq::filter);
                assert(before.take(i + 1).drop_last() =~= before.take(i as int));
            }
            if !(*self.compilers[i].name.as_str() == *str) {
                kept.push(self.compilers[i].clone());
                assert(compiler_views(kept@) =~= before.take(i as int).filter(
                    not_named(str@),
                ).push(before[i as int]));
            }
        }
        assert(before.take(self.compilers@.len() as int) =~= before);
        self.compilers = kept;
    }
}

/// The views of a sequence of language groups, in the same order.
pub open spec fn language_views(groups: Seq<Language>) -> Seq<LanguageView> {
    groups.map_values(|g: Language| g@)
}

} // verus!
