//! Package selections given as `:all:`, `:none:` or package names, as flags
//! such as `--no-binary` take them, and their folding into one selection.

use vstd::prelude::*;

verus! {

#[verifier::external_type_specification]
#[verifier::external_body]
pub struct ExPackageName(pep508_rs::PackageName);

#[verifier::external_type_specification]
#[verifier::external_body]
pub struct ExInvalidNameError(pep508_rs::InvalidNameError);

/// Relies on the `Clone` that `pep508_rs::PackageName` derives: the copy holds the
/// same normalized name.
pub assume_specification[ <pep508_rs::PackageName as std::clone::Clone>::clone ](
    n: &pep508_rs::PackageName,
) -> (r: pep508_rs::PackageName)
    ensures
        r == *n,
;

/// The normalized package name that `pep508_rs::PackageName::from_str` makes of a
/// valid name.
pub uninterp spec fn package_name_of(name: Seq<char>) -> pep508_rs::PackageName;

/// Whether `c` may stand in a package name.
pub open spec fn is_name_char(c: char) -> bool {
    ('a' <= c && c <= 'z') || ('A' <= c && c <= 'Z') || ('0' <= c && c <= '9') || is_name_punct(c)
}

/// The separators of a package name.
pub open spec fn is_name_punct(c: char) -> bool {
    c == '-' || c == '_' || c == '.'
}

/// A valid package name: letters, digits, `-`, `_` and `.`, neither starting nor
/// ending with one of the three separators.
pub open spec fn valid_package_name(s: Seq<char>) -> bool {
    &&& forall|i: int| 0 <= i < s.len() ==> is_name_char(#[trigger] s[i])
    &&& s.len() > 0 ==> !is_name_punct(s[0]) && !is_name_punct(s.last())
}

/// Relies on `pep508_rs::PackageName::from_str`: it accepts exactly the valid
/// names, and the normalized name depends on the text alone.
#[verifier::external_body]
fn parse_package_name(name: &str) -> (r: Result<pep508_rs::PackageName, pep508_rs::InvalidNameError>)
    ensures
        r is Ok <==> valid_package_name(name@),
        r matches Ok(n) ==> n == package_name_of(name@),
{
    <pep508_rs::PackageName as std::str::FromStr>::from_str(name)
}

/// One directive: every package, no package, or one named package.
#[derive(Debug, Clone)]
pub enum PackageNameSpecifier {
    All,
    Nothing,
    Package(pep508_rs::PackageName),
}

/// The selection that a sequence of directives comes to.
#[derive(Debug, Clone)]
pub enum PackageNameSpecifiers {
    All,
    Nothing,
    Packages(Vec<pep508_rs::PackageName>),
}

/// Whether two texts are equal, character for character.
fn same_text(a: &str, b: &str) -> (r: bool)
    ensures
        r == (a@ == b@),
{
    let n = a.unicode_len();
    if n != b.unicode_len() {
        return false;
    }
    let mut i: usize = 0;
    while i < n
        invariant
            n == a@.len(),
            n == b@.len(),
            i <= n,
            forall|j: int| 0 <= j < i ==> a@[j] == b@[j],
        decreases n - i,
    {
        if a.get_char(i) != b.get_char(i) {
            return false;
        }
        i = i + 1;
    }
    assert(a@ =~= b@);
    true
}

/// The running state of the fold after `specifiers`: the names gathered since the
/// last `:none:`, and whether an `:all:` came since then.
pub open spec fn fold_state(specifiers: Seq<PackageNameSpecifier>) -> (Seq<pep508_rs::PackageName>, bool)
    decreases specifiers.len(),
{
    if specifiers.len() == 0 {
        (Seq::empty(), false)
    } else {
        let (names, all) = fold_state(specifiers.drop_last());
        match specifiers.last() {
            PackageNameSpecifier::Nothing => (Seq::empty(), false),
            PackageNameSpecifier::All => (names, true),
            PackageNameSpecifier::Package(n) => (names.push(n), all),
        }
    }
}

/// Whether `r` is the selection that `specifiers` fold to: every package if an
/// `:all:` came after the last `:none:`; else the names since the last `:none:`,
/// in order and with repeats, or no package if there are none.
pub open spec fn folds_to(specifiers: Seq<PackageNameSpecifier>, r: PackageNameSpecifiers) -> bool {
    let (names, all) = fold_state(specifiers);
    if all {
        r is All
    } else if names.len() == 0 {
        r is Nothing
    } else {
        r matches PackageNameSpecifiers::Packages(v) && v@ == names
    }
}

/// A `:none:` is a full reset: what came before it has no bearing on the result.
pub proof fn lemma_reset_forgets_prefix(before: Seq<PackageNameSpecifier>, after: Seq<PackageNameSpecifier>)
    ensures
        fold_state(before.push(PackageNameSpecifier::Nothing) + after) == fold_state(after),
    decreases after.len(),
{
    let s = before.push(PackageNameSpecifier::Nothing) + after;
    if after.len() == 0 {
        assert(s =~= before.push(PackageNameSpecifier::Nothing));
        assert(s.drop_last() =~= before);
    } else {
        assert(s.drop_last() =~= before.push(PackageNameSpecifier::Nothing) + after.drop_last());
        lemma_reset_forgets_prefix(before, after.drop_last());
    }
}

/// An `:all:` with no `:none:` after it selects every package, whatever names
/// stand before or after it.
pub proof fn lemma_all_wins_without_later_reset(specifiers: Seq<PackageNameSpecifier>, i: int)
    requires
        0 <= i < specifiers.len(),
        specifiers[i] is All,
        forall|j: int| i < j < specifiers.len() ==> !(#[trigger] specifiers[j] is Nothing),
    ensures
        fold_state(specifiers).1,
    decreases specifiers.len(),
{
    if i < specifiers.len() - 1 {
        let rest = specifiers.drop_last();
        assert forall|j: int| i < j < rest.len() implies !(#[trigger] rest[j] is Nothing) by {
            assert(rest[j] == specifiers[j]);
        }
        lemma_all_wins_without_later_reset(rest, i);
    }
}

impl PackageNameSpecifier {
    /// Reads one directive: `:all:`, `:none:`, or else a package name.
    pub fn from_str(name: &str) -> (r: Result<PackageNameSpecifier, pep508_rs::InvalidNameError>)
        ensures
            name@ == ":all:"@ ==> r matches Ok(PackageNameSpecifier::All),
            name@ == ":none:"@ ==> r matches Ok(PackageNameSpecifier::Nothing),
            name@ != ":all:"@ && name@ != ":none:"@ ==> {
                &&& r is Ok <==> valid_package_name(name@)
                &&& r matches Ok(s) ==> s == PackageNameSpecifier::Package(package_name_of(name@))
            },
    {
        proof {
            reveal_strlit(":all:");
            reveal_strlit(":none:");
            assert(":all:"@.len() != ":none:"@.len());
        }
        if same_text(name, ":all:") {
            Ok(PackageNameSpecifier::All)
        } else if same_text(name, ":none:") {
            Ok(PackageNameSpecifier::Nothing)
        } else {
            match parse_package_name(name) {
                Ok(n) => Ok(PackageNameSpecifier::Package(n)),
                Err(e) => Err(e),
            }
        }
    }
}

impl PackageNameSpecifiers {
    /// Folds directives left to right: `:none:` empties the names and forgets any
    /// `:all:`, `:all:` selects every package, a name is added to the names.
    pub fn from_iter(specifiers: Vec<PackageNameSpecifier>) -> (r: PackageNameSpecifiers)
        ensures
            folds_to(specifiers@, r),
    {
        let ghost all_specifiers = specifiers@;
        let mut packages: Vec<pep508_rs::PackageName> = Vec::new();
        let mut all: bool = false;
        for specifier in iter: specifiers.into_iter()
            invariant
                iter.seq() == all_specifiers,
                (packages@, all) == fold_state(all_specifiers.take(iter.index() as int)),
        {
            proof {
                assert(all_specifiers.take(iter.index() + 1).drop_last()
                    =~= all_specifiers.take(iter.index() as int));
            }
            match specifier {
                PackageNameSpecifier::Nothing => {
                    packages.clear();
                    all = false;
                }
                PackageNameSpecifier::All => {
                    all = true;
                }
                PackageNameSpecifier::Package(name) => {
                    packages.push(name);
                }
            }
        }
        proof {
            assert(all_specifiers.take(all_specifiers.len() as int) =~= all_specifiers);
        }
        if all {
            PackageNameSpecifiers::All
        } else if packages.len() == 0 {
            PackageNameSpecifiers::Nothing
        } else {
            PackageNameSpecifiers::Packages(packages)
        }
    }
}

} // verus!
