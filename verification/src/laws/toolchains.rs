//! What holds of the roots that toolchains name.

use crate::laws::paths::{
    is_blank, is_tight, law_joining, law_text_of_spelled_path, law_trimming, lemma_encode_concat,
};
use crate::os_path::{joined, text_of};
use crate::patterns::{variable_of, CanonicalRoot};
use crate::roots::{
    go_search, named_path, path_in_run, registry_for, registry_in, spelled, variable_path,
    RootPathView, RootSearchView, ToolchainRun,
};
use vstd::prelude::*;
use vstd::utf8::{encode_utf8, is_ascii_chars, is_ascii_chars_encode_utf8};

verus! {

/// Whether a text is `name` with nothing but white space around it.
pub open spec fn is_name_in_space(text: Seq<char>, name: Seq<char>) -> bool {
    exists|before: Seq<char>, after: Seq<char>|
        {
            &&& text == #[trigger] (before + name + after)
            &&& is_blank(before)
            &&& is_blank(after)
        }
}

proof fn lemma_named(text: Seq<char>, name: Seq<char>)
    requires
        is_name_in_space(text, name),
        is_tight(name),
    ensures
        named_path(text) == if name.len() > 0 {
            Some(encode_utf8(name))
        } else {
            None
        },
{
    let (before, after) = choose|before: Seq<char>, after: Seq<char>|
        {
            &&& text == #[trigger] (before + name + after)
            &&& is_blank(before)
            &&& is_blank(after)
        };
    law_trimming(before, name, after);
}

proof fn lemma_blank(text: Seq<char>)
    requires
        is_blank(text),
    ensures
        named_path(text) is None,
{
    let nothing = Seq::<char>::empty();
    assert(text =~= text + nothing + nothing);
    lemma_named(text, nothing);
}

/// The variables that toolchains take their roots from.
pub proof fn law_variables()
    ensures
        variable_of(CanonicalRoot::GoModCache) == "GOMODCACHE"@,
        variable_of(CanonicalRoot::CargoRegistry) == "CARGO_HOME"@,
{
}

/// A variable names the whole of its value but for the white space around it; an
/// unset or blank one names nothing.
pub proof fn law_variable_names_its_value(value: &str, name: Seq<char>)
    requires
        is_tight(name),
    ensures
        name.len() > 0 && is_name_in_space(value@, name) ==> variable_path(Some(value)) == Some(
            encode_utf8(name),
        ),
        is_blank(value@) ==> variable_path(Some(value)) is None,
        variable_path(None) is None,
{
    if name.len() > 0 && is_name_in_space(value@, name) {
        lemma_named(value@, name);
    }
    if is_blank(value@) {
        lemma_blank(value@);
    }
}

/// A successful run of a toolchain names the whole of what it wrote but for the
/// white space around it, however long; blank output, an unsuccessful run and a
/// program that did not start name nothing.
pub proof fn law_run_names_its_output(stdout: Vec<u8>, name: Seq<char>)
    requires
        is_tight(name),
    ensures
        name.len() > 0 && is_name_in_space(text_of(stdout@), name) ==> path_in_run(
            (ToolchainRun::Finished { success: true, stdout }),
        ) == Some(encode_utf8(name)),
        is_blank(text_of(stdout@)) ==> path_in_run(
            (ToolchainRun::Finished { success: true, stdout }),
        ) is None,
        path_in_run((ToolchainRun::Finished { success: false, stdout })) is None,
        path_in_run(ToolchainRun::NotStarted) is None,
{
    if name.len() > 0 && is_name_in_space(text_of(stdout@), name) {
        lemma_named(text_of(stdout@), name);
    }
    if is_blank(text_of(stdout@)) {
        lemma_blank(text_of(stdout@));
    }
}

/// A run that wrote a path and then white space, such as the end of a line,
/// names that path.
pub proof fn law_run_names_written_path(stdout: Vec<u8>, name: Seq<char>, space: Seq<char>)
    requires
        name.len() > 0,
        is_tight(name),
        is_blank(space),
        stdout@ == encode_utf8(name + space),
    ensures
        path_in_run((ToolchainRun::Finished { success: true, stdout })) == Some(encode_utf8(name)),
{
    law_text_of_spelled_path(name + space);
    assert(name + space =~= Seq::<char>::empty() + name + space);
    law_run_names_its_output(stdout, name);
}

/// The Go module cache is the directory that the variable names, else the one
/// that a run names; the command is asked for only where neither is there.
pub proof fn law_go_search(gomodcache: Option<&str>, run: Option<ToolchainRun>)
    ensures
        variable_path(gomodcache) matches Some(path) ==> go_search(gomodcache, run)
            == RootSearchView::Known(
            Some(RootPathView { base: path, below: Seq::<Seq<char>>::empty() }),
        ),
        variable_path(gomodcache) is None && run is Some ==> go_search(gomodcache, run)
            == RootSearchView::Known(
            match path_in_run(run->0) {
                Some(path) => Some(RootPathView { base: path, below: Seq::<Seq<char>>::empty() }),
                None => None,
            },
        ),
        variable_path(gomodcache) is None && run is None ==> go_search(gomodcache, run) == (
        RootSearchView::Ask { program: "go"@, arguments: seq!["env"@, "GOMODCACHE"@] }),
{
}

/// The Cargo registry is `registry` in the directory that the variable names,
/// else `.cargo`, then `registry`, in the home directory; without both there is
/// none.
pub proof fn law_registry(cargo_home: Option<&str>, home: Option<Seq<u8>>, path: Seq<u8>)
    ensures
        registry_in(path) == (RootPathView { base: path, below: seq!["registry"@] }),
        variable_path(cargo_home) matches Some(named) ==> registry_for(cargo_home, home) == Some(
            RootPathView { base: named, below: seq!["registry"@] },
        ),
        variable_path(cargo_home) is None && home is Some ==> registry_for(cargo_home, home)
            == Some(RootPathView { base: home->0, below: seq![".cargo"@, "registry"@] }),
        variable_path(cargo_home) is None && home is None ==> registry_for(cargo_home, home)
            is None,
{
}

/// A root is spelled by joining one name after the other to its base.
pub proof fn law_spelling(base: Seq<u8>, below: Seq<Seq<char>>, name: Seq<char>)
    ensures
        spelled(base, Seq::<Seq<char>>::empty()) == base,
        spelled(base, below.push(name)) == joined(spelled(base, below), encode_utf8(name)),
    decreases below.len(),
{
    reveal_with_fuel(spelled, 2);
    if below.len() == 0 {
        assert(below.push(name).drop_first() =~= Seq::<Seq<char>>::empty());
        assert(below =~= Seq::<Seq<char>>::empty());
    } else {
        law_spelling(joined(base, encode_utf8(below[0])), below.drop_first(), name);
        assert(below.push(name).drop_first() =~= below.drop_first().push(name));
    }
}

proof fn lemma_joined_name(base: Seq<u8>, name: Seq<char>)
    requires
        base.len() > 0,
        base.last() != 0x2f,
        name.len() > 0,
        is_ascii_chars(name),
        name[0] != '/',
    ensures
        joined(base, encode_utf8(name)) == base + encode_utf8(seq!['/'] + name),
        joined(base, encode_utf8(name)).last() == name.last() as u8,
{
    law_joining(base, encode_utf8(name));
    is_ascii_chars_encode_utf8(name);
    is_ascii_chars_encode_utf8(seq!['/']);
    lemma_encode_concat(seq!['/'], name);
    assert(encode_utf8(seq!['/']) =~= seq![0x2fu8]);
    assert(base + seq![0x2fu8] + encode_utf8(name) =~= base + encode_utf8(seq!['/'] + name));
}

/// Spelled with slashes, the registry is `/registry` behind Cargo's home
/// directory, and `/.cargo/registry` behind the home directory of the user.
pub proof fn law_registry_spelled(base: Seq<u8>)
    requires
        base.len() > 0,
        base.last() != 0x2f,
    ensures
        spelled(base, seq!["registry"@]) == base + encode_utf8("/registry"@),
        spelled(base, seq![".cargo"@, "registry"@]) == base + encode_utf8("/.cargo/registry"@),
{
    reveal_strlit("registry");
    reveal_strlit("/registry");
    reveal_strlit(".cargo");
    reveal_strlit("/.cargo/registry");
    let nothing = Seq::<Seq<char>>::empty();
    law_spelling(base, nothing, "registry"@);
    assert(nothing.push("registry"@) =~= seq!["registry"@]);
    lemma_joined_name(base, "registry"@);
    assert(seq!['/'] + "registry"@ =~= "/registry"@);

    law_spelling(base, nothing, ".cargo"@);
    assert(nothing.push(".cargo"@) =~= seq![".cargo"@]);
    lemma_joined_name(base, ".cargo"@);
    let cargo = joined(base, encode_utf8(".cargo"@));
    law_spelling(base, seq![".cargo"@], "registry"@);
    assert(seq![".cargo"@].push("registry"@) =~= seq![".cargo"@, "registry"@]);
    lemma_joined_name(cargo, "registry"@);
    lemma_encode_concat(seq!['/'] + ".cargo"@, "/registry"@);
    assert(seq!['/'] + ".cargo"@ + "/registry"@ =~= "/.cargo/registry"@);
    assert(cargo + encode_utf8("/registry"@) =~= base + encode_utf8("/.cargo/registry"@));
}

} // verus!
