//! Platform tags: which packages may be installed on the current host.

use vstd::prelude::*;
use crate::package::{FlatPackage, PackageModel};
use crate::text::{glue, list_contains, strings_view, text_eq};

verus! {

/// The tag that refuses `tag`: an exclamation mark in front of it.
pub open spec fn negation(tag: Seq<char>) -> Seq<char> {
    seq!['!'] + tag
}

/// Whether an entry of a platform list refuses a tag.
pub open spec fn is_negated(entry: Seq<char>) -> bool {
    entry.len() > 0 && entry[0] == '!'
}

/// Whether every entry of a list is a refusal.
pub open spec fn all_negated(list: Seq<Seq<char>>) -> bool {
    forall|i: int| 0 <= i < list.len() ==> is_negated(#[trigger] list[i])
}

/// Whether a list of operating systems admits the current one. A list
/// that refuses the current tag excludes it. Of the other lists, one admits
/// the current system if it names it, or if it holds refusals only and at
/// least one: an empty list names no system and admits none.
pub open spec fn os_permits(list: Seq<Seq<char>>, current: Seq<char>) -> bool {
    &&& !list.contains(negation(current))
    &&& (list.contains(current) || (list.len() > 0 && all_negated(list)))
}

/// Whether a list of processors admits the current one: it has to name it.
pub open spec fn cpu_permits(list: Seq<Seq<char>>, current: Seq<char>) -> bool {
    list.contains(current)
}

/// Whether a package may be installed on a host with the given tags.
pub open spec fn compatible(package: PackageModel, os: Seq<char>, cpu: Seq<char>) -> bool {
    &&& (package.os matches Some(list) ==> os_permits(list, os))
    &&& (package.cpu matches Some(list) ==> cpu_permits(list, cpu))
}

/// Whether a list both allows and refuses one tag.
pub open spec fn ambiguous(list: Seq<Seq<char>>) -> bool {
    exists|i: int, j: int|
        0 <= i < list.len() && 0 <= j < list.len() && #[trigger] list[j] == negation(
            #[trigger] list[i],
        )
}

/// The tag that the package ecosystem uses for an operating system, given
/// the name that Rust's standard library uses for it. The two agree but
/// for Windows, macOS and the Solaris family.
pub open spec fn os_tag_of(host: Seq<char>) -> Seq<char> {
    if host == "windows"@ {
        "win32"@
    } else if host == "macos"@ {
        "darwin"@
    } else if host == "solaris"@ || host == "illumos"@ {
        "sunos"@
    } else {
        host
    }
}

/// The tag that the package ecosystem uses for a processor, given the name
/// that Rust's standard library uses for it. The two agree but for the
/// x86, ARM64, PowerPC and LoongArch families.
pub open spec fn cpu_tag_of(host: Seq<char>) -> Seq<char> {
    if host == "x86_64"@ {
        "x64"@
    } else if host == "aarch64"@ {
        "arm64"@
    } else if host == "x86"@ {
        "ia32"@
    } else if host == "powerpc"@ {
        "ppc"@
    } else if host == "powerpc64"@ {
        "ppc64"@
    } else if host == "loongarch64"@ {
        "loong64"@
    } else {
        host
    }
}

/// The ecosystem's tag for the operating system that Rust calls `host`.
pub fn os_tag(host: &str) -> (tag: String)
    ensures
        tag@ == os_tag_of(host@),
{
    if text_eq(host, "windows") {
        String::from_str("win32")
    } else if text_eq(host, "macos") {
        String::from_str("darwin")
    } else if text_eq(host, "solaris") || text_eq(host, "illumos") {
        String::from_str("sunos")
    } else {
        String::from_str(host)
    }
}

/// The ecosystem's tag for the processor that Rust calls `host`.
pub fn cpu_tag(host: &str) -> (tag: String)
    ensures
        tag@ == cpu_tag_of(host@),
{
    if text_eq(host, "x86_64") {
        String::from_str("x64")
    } else if text_eq(host, "aarch64") {
        String::from_str("arm64")
    } else if text_eq(host, "x86") {
        String::from_str("ia32")
    } else if text_eq(host, "powerpc") {
        String::from_str("ppc")
    } else if text_eq(host, "powerpc64") {
        String::from_str("ppc64")
    } else if text_eq(host, "loongarch64") {
        String::from_str("loong64")
    } else {
        String::from_str(host)
    }
}

/// Whether `entry` begins with an exclamation mark.
pub fn entry_is_negated(entry: &str) -> (r: bool)
    ensures
        r == is_negated(entry@),
{
    entry.unicode_len() > 0 && entry.get_char(0) == '!'
}

/// The refusal of `tag`.
pub fn negate(tag: &str) -> (out: String)
    ensures
        out@ == negation(tag@),
{
    proof {
        reveal_strlit("!");
        assert("!"@ =~= seq!['!']);
    }
    glue("!", tag)
}

/// Whether a list of operating systems admits `current`.
pub fn os_allows(list: &Vec<String>, current: &str) -> (r: bool)
    ensures
        r == os_permits(strings_view(list@), current@),
{
    let refusal = negate(current);
    if list_contains(list, refusal.as_str()) {
        return false;
    }
    if list_contains(list, current) {
        return true;
    }
    if list.len() == 0 {
        return false;
    }
    let ghost tags = strings_view(list@);
    let mut i: usize = 0;
    while i < list.len()
        invariant
            i <= list.len(),
            tags == strings_view(list@),
            tags.len() > 0,
            !tags.contains(negation(current@)),
            !tags.contains(current@),
            forall|k: int| 0 <= k < i ==> is_negated(#[trigger] tags[k]),
        decreases list.len() - i,
    {
        if !entry_is_negated(list[i].as_str()) {
            assert(tags[i as int] == list[i as int]@);
            assert(!all_negated(tags));
            return false;
        }
        i = i + 1;
    }
    true
}

/// Whether a list of processors admits `current`.
pub fn cpu_allows(list: &Vec<String>, current: &str) -> (r: bool)
    ensures
        r == cpu_permits(strings_view(list@), current@),
{
    list_contains(list, current)
}

/// Whether `package` may be installed on a host with the tags `os` and `cpu`.
pub fn is_compatible(package: &FlatPackage, os: &str, cpu: &str) -> (r: bool)
    ensures
        r == compatible(package@, os@, cpu@),
{
    let os_ok = match &package.os {
        Some(list) => os_allows(list, os),
        None => true,
    };
    let cpu_ok = match &package.cpu {
        Some(list) => cpu_allows(list, cpu),
        None => true,
    };
    os_ok && cpu_ok
}

/// Whether a list both allows and refuses one tag.
pub fn is_ambiguous(list: &Vec<String>) -> (r: bool)
    ensures
        r == ambiguous(strings_view(list@)),
{
    let ghost tags = strings_view(list@);
    let mut i: usize = 0;
    while i < list.len()
        invariant
            i <= list.len(),
            tags == strings_view(list@),
            forall|a: int, b: int|
                0 <= a < i && 0 <= b < tags.len() ==> #[trigger] tags[b] != negation(
                    #[trigger] tags[a],
                ),
        decreases list.len() - i,
    {
        let refusal = negate(list[i].as_str());
        if list_contains(list, refusal.as_str()) {
            let ghost j = choose|j: int| 0 <= j < tags.len() && tags[j] == refusal@;
            assert(tags[j] == negation(tags[i as int]));
            return true;
        }
        assert forall|b: int| 0 <= b < tags.len() implies #[trigger] tags[b] != negation(
            tags[i as int],
        ) by {
            if tags[b] == negation(tags[i as int]) {
                assert(tags.contains(refusal@));
            }
        }
        i = i + 1;
    }
    false
}

/// A list with the single tag `tag`, which is no refusal, admits the
/// current system exactly when the current system is `tag`.
pub proof fn sole_allowed_tag(tag: Seq<char>, current: Seq<char>)
    requires
        !is_negated(tag),
    ensures
        os_permits(seq![tag], current) <==> current == tag,
{
    let list = seq![tag];
    assert(list[0] == tag);
    assert(negation(current)[0] == '!');
    if current == tag {
        assert(list.contains(current));
    }
    assert(!all_negated(list));
}

/// A list with the single entry `!tag` admits the current system exactly
/// when the current system is not `tag`.
pub proof fn sole_refused_tag(tag: Seq<char>, current: Seq<char>)
    ensures
        os_permits(seq![negation(tag)], current) <==> current != tag,
{
    let list = seq![negation(tag)];
    assert(list[0] == negation(tag));
    assert(is_negated(negation(tag)));
    assert(all_negated(list));
    if current == tag {
        assert(list.contains(negation(current)));
    } else {
        if list.contains(negation(current)) {
            assert(negation(tag) == negation(current));
            assert(negation(tag).subrange(1, negation(tag).len() as int) =~= tag);
            assert(negation(current).subrange(1, negation(current).len() as int) =~= current);
        }
    }
}

/// A package that allows the single system `tag` and names no processor
/// is installed exactly on hosts whose system is `tag`.
pub proof fn package_for_one_system(
    package: PackageModel,
    tag: Seq<char>,
    os: Seq<char>,
    cpu: Seq<char>,
)
    requires
        package.os == Some(seq![tag]),
        package.cpu is None,
        !is_negated(tag),
    ensures
        compatible(package, os, cpu) <==> os == tag,
{
    sole_allowed_tag(tag, os);
}

/// A package that refuses the single system `tag` and names no processor
/// is installed exactly on hosts whose system is not `tag`.
pub proof fn package_against_one_system(
    package: PackageModel,
    tag: Seq<char>,
    os: Seq<char>,
    cpu: Seq<char>,
)
    requires
        package.os == Some(seq![negation(tag)]),
        package.cpu is None,
    ensures
        compatible(package, os, cpu) <==> os != tag,
{
    sole_refused_tag(tag, os);
}

/// A package that names no platform at all may be installed anywhere.
pub proof fn unconstrained_is_compatible(package: PackageModel, os: Seq<char>, cpu: Seq<char>)
    requires
        package.os is None,
        package.cpu is None,
    ensures
        compatible(package, os, cpu),
{
}

} // verus!
