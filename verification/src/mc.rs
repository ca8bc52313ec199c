//! Minecraft versions, mod loaders, and the decisions taken while a game is
//! installed and launched: which loader version to use, which JVM options to
//! pass, and how the launcher's progress reports become events for the screen.
use vstd::prelude::*;
use crate::text::{
    chars_of, concat_str, decimal, decimal_string, owned, parse_u32, parse_u32_chars, same_text,
    split_chars, split_on, string_of, strip_leading, strip_leading_chars, trim, trim_chars,
};

verus! {

/// A Minecraft version that can be downloaded.
pub struct VersionEntry {
    /// Version identifier (`"1.21.4"`, `"25w14a"`).
    pub id: String,
    /// `"release"` for stable versions, `"snapshot"` and others otherwise.
    pub version_type: String,
}

/// What the launch task reports to the screen.
pub enum McEvent {
    /// Current step, as text.
    Status(String),
    /// Bytes downloaded so far (`total` is 0 when unknown).
    Progress { current: u64, total: u64 },
    /// The game process started.
    Launched { pid: u32 },
    /// One line of the game's console.
    ProcessOutput(String),
    /// The game process ended.
    ProcessExited { exit_code: i32 },
    /// Something went wrong.
    Error(String),
    /// The launch task finished without error.
    Done,
}

/// The mod loaders the launcher offers.
#[derive(PartialEq, Eq, Structural, Clone, Copy, Debug)]
pub enum Loader {
    Vanilla,
    Fabric,
    Quilt,
    NeoForge,
    Forge,
}

/// The names of the loaders, in the order in which the selector shows them.
pub open spec fn loader_names() -> Seq<Seq<char>> {
    seq!["Vanilla"@, "Fabric"@, "Quilt"@, "NeoForge"@, "Forge"@]
}

/// The loader that a name stands for; unknown names stand for Vanilla.
pub open spec fn loader_named(s: Seq<char>) -> Loader {
    if s == "Fabric"@ {
        Loader::Fabric
    } else if s == "Quilt"@ {
        Loader::Quilt
    } else if s == "NeoForge"@ {
        Loader::NeoForge
    } else if s == "Forge"@ {
        Loader::Forge
    } else {
        Loader::Vanilla
    }
}

/// The names of the supported loaders, in display order.
pub fn loader_list() -> (r: &'static [&'static str])
    ensures
        r@.len() == 5,
        forall|i: int| 0 <= i < 5 ==> (#[trigger] r@[i])@ == loader_names()[i],
{
    let r: &'static [&'static str] = &["Vanilla", "Fabric", "Quilt", "NeoForge", "Forge"];
    proof {
        reveal_strlit("Vanilla");
        reveal_strlit("Fabric");
        reveal_strlit("Quilt");
        reveal_strlit("NeoForge");
        reveal_strlit("Forge");
    }
    r
}

/// The loader that `s` names (`"Fabric"` gives Fabric); any other text gives Vanilla.
pub fn parse_loader(s: &str) -> (r: Loader)
    ensures
        r == loader_named(s@),
{
    if same_text(s, "Fabric") {
        Loader::Fabric
    } else if same_text(s, "Quilt") {
        Loader::Quilt
    } else if same_text(s, "NeoForge") {
        Loader::NeoForge
    } else if same_text(s, "Forge") {
        Loader::Forge
    } else {
        Loader::Vanilla
    }
}

// ── Loader versions ───────────────────────────────────────────────────────
/// Where the newest version of a loader for Minecraft `mc_version` is looked up.
pub open spec fn metadata_url_spec(loader: Loader, mc_version: Seq<char>) -> Option<Seq<char>> {
    match loader {
        Loader::Fabric => Some("https://meta.fabricmc.net/v2/versions/loader/"@ + mc_version),
        Loader::Quilt => Some("https://meta.quiltmc.org/v3/versions/loader/"@ + mc_version),
        Loader::Forge => Some(
            "https://files.minecraftforge.net/net/minecraftforge/forge/promotions_slim.json"@,
        ),
        Loader::NeoForge => Some(
            "https://maven.neoforged.net/api/maven/versions/releases/net/neoforged/neoforge"@,
        ),
        Loader::Vanilla => None,
    }
}

/// The address of the listing from which the version of `loader` for
/// Minecraft `mc_version` is chosen; `None` for Vanilla, which needs no
/// loader version (the empty one is used).
pub fn metadata_url(loader: Loader, mc_version: &str) -> (r: Option<String>)
    ensures
        match r {
            Some(u) => metadata_url_spec(loader, mc_version@) == Some(u@),
            None => metadata_url_spec(loader, mc_version@) is None,
        },
{
    match loader {
        Loader::Fabric => Some(concat_str("https://meta.fabricmc.net/v2/versions/loader/", mc_version)),
        Loader::Quilt => Some(concat_str("https://meta.quiltmc.org/v3/versions/loader/", mc_version)),
        Loader::Forge => Some(
            owned("https://files.minecraftforge.net/net/minecraftforge/forge/promotions_slim.json"),
        ),
        Loader::NeoForge => Some(
            owned("https://maven.neoforged.net/api/maven/versions/releases/net/neoforged/neoforge"),
        ),
        Loader::Vanilla => None,
    }
}

/// The loader version that a Fabric or Quilt listing recommends: the first
/// one listed, if any.
pub fn first_listed(listed: &Vec<String>) -> (r: Option<String>)
    ensures
        listed@.len() == 0 ==> r is None,
        listed@.len() > 0 ==> r == Some(listed@[0]),
{
    if listed.len() == 0 {
        None
    } else {
        Some(listed[0].clone())
    }
}

/// Whether no two pairs have the same key (as in a map).
pub open spec fn keys_unique(pairs: Seq<(String, String)>) -> bool {
    forall|i: int, j: int|
        0 <= i < pairs.len() && 0 <= j < pairs.len() && i != j ==> (#[trigger] pairs[i]).0@
            != (#[trigger] pairs[j]).0@
}

/// The map that a list of key/value pairs stands for (a later pair wins).
pub open spec fn pairs_map(pairs: Seq<(String, String)>) -> Map<Seq<char>, Seq<char>>
    decreases pairs.len(),
{
    if pairs.len() == 0 {
        Map::empty()
    } else {
        pairs_map(pairs.drop_last()).insert(pairs.last().0@, pairs.last().1@)
    }
}

/// A key that no pair has is missing from the map; with distinct keys,
/// each pair's value is the one stored under its key.
pub proof fn lemma_pairs_map(pairs: Seq<(String, String)>)
    ensures
        forall|k: Seq<char>|
            (forall|i: int| 0 <= i < pairs.len() ==> (#[trigger] pairs[i]).0@ != k) ==> !(
            #[trigger] pairs_map(pairs).dom().contains(k)),
        keys_unique(pairs) ==> forall|i: int|
            0 <= i < pairs.len() ==> #[trigger] pairs_map(pairs).dom().contains(pairs[i].0@)
                && pairs_map(pairs)[pairs[i].0@] == pairs[i].1@,
    decreases pairs.len(),
{
    if pairs.len() > 0 {
        let rest = pairs.drop_last();
        lemma_pairs_map(rest);
        assert forall|k: Seq<char>|
            (forall|i: int| 0 <= i < pairs.len() ==> (#[trigger] pairs[i]).0@ != k) implies !(
            #[trigger] pairs_map(pairs).dom().contains(k)) by {
            assert(pairs.last().0@ != k);
            assert forall|i: int| 0 <= i < rest.len() implies (#[trigger] rest[i]).0@ != k by {
                assert(rest[i] == pairs[i]);
            }
            assert(!pairs_map(rest).dom().contains(k));
        }
        if keys_unique(pairs) {
            assert forall|i: int, j: int|
                0 <= i < rest.len() && 0 <= j < rest.len() && i != j implies (
                #[trigger] rest[i]).0@ != (#[trigger] rest[j]).0@ by {
                assert(rest[i] == pairs[i] && rest[j] == pairs[j]);
            }
            assert forall|i: int| 0 <= i < pairs.len() implies #[trigger] pairs_map(
                pairs,
            ).dom().contains(pairs[i].0@) && pairs_map(pairs)[pairs[i].0@] == pairs[i].1@ by {
                if i < pairs.len() - 1 {
                    assert(rest[i] == pairs[i]);
                    assert(pairs[i].0@ != pairs[pairs.len() - 1].0@);
                    assert(pairs_map(rest).dom().contains(rest[i].0@));
                }
            }
        }
    }
}

/// Forge's promotions: promotion names (such as `"1.20.1-recommended"`),
/// each with the Forge version promoted under it. A name occurs once, as in
/// the map that Forge publishes.
pub struct Promotions {
    entries: Vec<(String, String)>,
}

impl Promotions {
    #[verifier::type_invariant]
    spec fn names_distinct(self) -> bool {
        keys_unique(self.entries@)
    }

    /// No promotions.
    pub fn new() -> (r: Promotions)
        ensures
            r@ == Map::<Seq<char>, Seq<char>>::empty(),
    {
        Promotions { entries: Vec::new() }
    }

    /// Where `name` stands in the entries, if it does.
    fn position(&self, name: &str) -> (r: Option<usize>)
        ensures
            match r {
                Some(i) => i < self.entries@.len() && self.entries@[i as int].0@ == name@,
                None => forall|i: int|
                    0 <= i < self.entries@.len() ==> (#[trigger] self.entries@[i]).0@ != name@,
            },
    {
        let n = self.entries.len();
        let mut i: usize = 0;
        while i < n
            invariant
                n == self.entries@.len(),
                i <= n,
                forall|j: int| 0 <= j < i ==> (#[trigger] self.entries@[j]).0@ != name@,
            decreases n - i,
        {
            if same_text(self.entries[i].0.as_str(), name) {
                return Some(i);
            }
            i = i + 1;
        }
        None
    }

    /// Records `version` as promoted under `name`, in place of any version
    /// promoted under it before.
    pub fn insert(&mut self, name: String, version: String)
        ensures
            final(self)@ == old(self)@.insert(name@, version@),
    {
        proof {
            use_type_invariant(&*self);
        }
        let found = self.position(name.as_str());
        let mut entries: Vec<(String, String)> = Vec::new();
        std::mem::swap(&mut entries, &mut self.entries);
        let ghost s = entries@;
        let ghost k = name@;
        let ghost v = version@;
        proof {
            lemma_pairs_map(s);
        }
        match found {
            Some(i) => {
                entries.remove(i);
                entries.insert(i, (name, version));
                let ghost t = entries@;
                assert(t =~= s.update(i as int, t[i as int]));
                assert forall|a: int, b: int|
                    0 <= a < t.len() && 0 <= b < t.len() && a != b implies (#[trigger] t[a]).0@
                    != (#[trigger] t[b]).0@ by {
                    assert(t[a].0@ == s[a].0@ && t[b].0@ == s[b].0@);
                }
                proof {
                    lemma_pairs_map(t);
                }
                assert forall|k2: Seq<char>|
                    #[trigger] pairs_map(t).dom().contains(k2) == pairs_map(s).insert(
                        k,
                        v,
                    ).dom().contains(k2) && (pairs_map(t).dom().contains(k2) ==> pairs_map(t)[k2]
                        == pairs_map(s).insert(k, v)[k2]) by {
                    if k2 == k {
                        assert(t[i as int].0@ == k && t[i as int].1@ == v);
                        assert(pairs_map(t).dom().contains(t[i as int].0@));
                    } else if exists|j: int| 0 <= j < t.len() && (#[trigger] t[j]).0@ == k2 {
                        let j = choose|j: int| 0 <= j < t.len() && (#[trigger] t[j]).0@ == k2;
                        assert(j != i);
                        assert(t[j] == s[j]);
                        assert(pairs_map(t).dom().contains(t[j].0@));
                        assert(pairs_map(s).dom().contains(s[j].0@));
                    } else {
                        assert forall|j: int| 0 <= j < s.len() implies (#[trigger] s[j]).0@
                            != k2 by {
                            if j != i {
                                assert(t[j] == s[j]);
                            }
                        }
                        assert(!pairs_map(t).dom().contains(k2));
                        assert(!pairs_map(s).dom().contains(k2));
                    }
                }
                assert(pairs_map(t) =~= pairs_map(s).insert(k, v));
            },
            None => {
                entries.push((name, version));
                let ghost t = entries@;
                assert(t.drop_last() =~= s);
                assert forall|a: int, b: int|
                    0 <= a < t.len() && 0 <= b < t.len() && a != b implies (#[trigger] t[a]).0@
                    != (#[trigger] t[b]).0@ by {
                    if a < s.len() {
                        assert(t[a] == s[a]);
                    }
                    if b < s.len() {
                        assert(t[b] == s[b]);
                    }
                }
            },
        }
        self.entries = entries;
    }

    /// The version promoted under `name`, if any.
    pub fn get(&self, name: &str) -> (r: Option<String>)
        ensures
            match r {
                Some(v) => self@.dom().contains(name@) && self@[name@] == v@,
                None => !self@.dom().contains(name@),
            },
    {
        proof {
            use_type_invariant(self);
            lemma_pairs_map(self.entries@);
        }
        match self.position(name) {
            Some(i) => {
                assert(pairs_map(self.entries@).dom().contains(self.entries@[i as int].0@));
                Some(self.entries[i].1.clone())
            },
            None => None,
        }
    }
}

impl View for Promotions {
    type V = Map<Seq<char>, Seq<char>>;

    closed spec fn view(&self) -> Map<Seq<char>, Seq<char>> {
        pairs_map(self.entries@)
    }
}

/// The version stored under `name` in `promos`, if any.
pub open spec fn promoted(promos: Map<Seq<char>, Seq<char>>, name: Seq<char>) -> Option<
    Seq<char>,
> {
    if promos.dom().contains(name) {
        Some(promos[name])
    } else {
        None
    }
}

/// The Forge version chosen for `mc_version` from Forge's promotions:
/// the one promoted as `"<mc_version>-recommended"`, else the one promoted
/// as `"<mc_version>-latest"`.
pub open spec fn forge_choice(mc_version: Seq<char>, promos: Map<Seq<char>, Seq<char>>) -> Option<
    Seq<char>,
> {
    match promoted(promos, mc_version + "-recommended"@) {
        Some(v) => Some(v),
        None => promoted(promos, mc_version + "-latest"@),
    }
}

/// The Forge version for `mc_version` among Forge's promotions.
pub fn forge_promotion(mc_version: &str, promos: &Promotions) -> (r: Option<String>)
    ensures
        match r {
            Some(v) => forge_choice(mc_version@, promos@) == Some(v@),
            None => forge_choice(mc_version@, promos@) is None,
        },
{
    let recommended = concat_str(mc_version, "-recommended");
    match promos.get(recommended.as_str()) {
        Some(v) => Some(v),
        None => {
            let latest = concat_str(mc_version, "-latest");
            promos.get(latest.as_str())
        },
    }
}

/// The numbers among the pieces `parts` (those that parse as a `u32`), in order.
pub open spec fn numbers_in(parts: Seq<Seq<char>>) -> Seq<u32>
    decreases parts.len(),
{
    if parts.len() == 0 {
        Seq::empty()
    } else {
        let r = numbers_in(parts.drop_last());
        match parse_u32(parts.last()) {
            Some(n) => r.push(n),
            None => r,
        }
    }
}

/// A loader's listing of versions, as read from its metadata address.
pub enum LoaderListing {
    /// Fabric's or Quilt's loader versions, newest first.
    Versions(Vec<String>),
    /// Forge's promotions.
    Promotions(Promotions),
    /// NeoForge's releases, oldest first.
    Releases(Vec<String>),
}

/// The loader version chosen from a listing, as `loader_version` states it.
pub open spec fn loader_version_choice(
    loader: Loader,
    mc_version: Seq<char>,
    listing: Option<LoaderListing>,
) -> Option<Seq<char>> {
    match loader {
        Loader::Vanilla => Some(Seq::empty()),
        Loader::Fabric | Loader::Quilt => match listing {
            Some(LoaderListing::Versions(v)) => if v@.len() > 0 {
                Some(v@[0]@)
            } else {
                None
            },
            _ => None,
        },
        Loader::Forge => match listing {
            Some(LoaderListing::Promotions(p)) => forge_choice(mc_version, p@),
            _ => None,
        },
        Loader::NeoForge => match listing {
            Some(LoaderListing::Releases(r)) => neoforge_choice(mc_version, string_views(r@)),
            _ => None,
        },
    }
}

/// The version of `loader` to use with Minecraft `mc_version`: none is
/// needed for Vanilla (the empty one is used); for the others, the one that
/// their listing recommends, and none when the listing could not be read
/// (`None`) or is not the loader's kind of listing.
pub fn loader_version(loader: Loader, mc_version: &str, listing: Option<LoaderListing>) -> (r:
    Option<String>)
    ensures
        match r {
            Some(v) => loader_version_choice(loader, mc_version@, listing) == Some(v@),
            None => loader_version_choice(loader, mc_version@, listing) is None,
        },
{
    match loader {
        Loader::Vanilla => Some(String::new()),
        Loader::Fabric | Loader::Quilt => match listing {
            Some(LoaderListing::Versions(v)) => first_listed(&v),
            _ => None,
        },
        Loader::Forge => match listing {
            Some(LoaderListing::Promotions(p)) => forge_promotion(mc_version, &p),
            _ => None,
        },
        Loader::NeoForge => match listing {
            Some(LoaderListing::Releases(r)) => {
                let chosen = neoforge_release(mc_version, r.as_slice());
                proof {
                    lemma_neoforge_choice(mc_version@, string_views(r@));
                    assert forall|i: int| 0 <= i < r@.len() implies string_views(r@)[i] == (
                    #[trigger] r@[i])@ by {}
                }
                chosen
            },
            _ => None,
        },
    }
}

/// The NeoForge release chosen for `mc_version` among `releases` (oldest
/// first): the last one that fits.
pub open spec fn neoforge_choice(mc_version: Seq<char>, releases: Seq<Seq<char>>) -> Option<
    Seq<char>,
>
    decreases releases.len(),
{
    if releases.len() == 0 {
        None
    } else if neoforge_fits(mc_version, releases.last()) {
        Some(releases.last())
    } else {
        neoforge_choice(mc_version, releases.drop_last())
    }
}

/// `neoforge_choice` is the last fitting release.
pub proof fn lemma_neoforge_choice(mc_version: Seq<char>, releases: Seq<Seq<char>>)
    ensures
        neoforge_choice(mc_version, releases) is None <==> forall|i: int|
            0 <= i < releases.len() ==> !neoforge_fits(mc_version, #[trigger] releases[i]),
        forall|i: int|
            0 <= i < releases.len() && neoforge_fits(mc_version, #[trigger] releases[i]) && (
            forall|j: int| i < j < releases.len() ==> !neoforge_fits(mc_version, releases[j]))
                ==> neoforge_choice(mc_version, releases) == Some(releases[i]),
    decreases releases.len(),
{
    if releases.len() > 0 {
        let rest = releases.drop_last();
        lemma_neoforge_choice(mc_version, rest);
        assert forall|i: int| 0 <= i < rest.len() implies rest[i] == #[trigger] releases[i] by {}
        if !neoforge_fits(mc_version, releases.last()) {
            assert forall|i: int|
                0 <= i < releases.len() && neoforge_fits(mc_version, #[trigger] releases[i]) && (
                forall|j: int| i < j < releases.len() ==> !neoforge_fits(mc_version, releases[j]))
                    implies neoforge_choice(mc_version, releases) == Some(releases[i]) by {
                assert(i < releases.len() - 1);
                assert(rest[i] == releases[i]);
                assert forall|j: int| i < j < rest.len() implies !neoforge_fits(
                    mc_version,
                    #[trigger] rest[j],
                ) by {
                    assert(rest[j] == releases[j]);
                }
            }
        } else {
            assert forall|i: int|
                0 <= i < releases.len() && neoforge_fits(mc_version, #[trigger] releases[i]) && (
                forall|j: int| i < j < releases.len() ==> !neoforge_fits(mc_version, releases[j]))
                    implies neoforge_choice(mc_version, releases) == Some(releases[i]) by {
                if i < releases.len() - 1 {
                    assert(!neoforge_fits(mc_version, releases[releases.len() - 1]));
                }
            }
        }
    }
}

/// The numeric components of a dotted version string: `"1.21.4"` gives
/// `[1, 21, 4]`; components that are not numbers are skipped.
pub open spec fn version_numbers(s: Seq<char>) -> Seq<u32> {
    numbers_in(split_on(s, '.'))
}

/// The `i`-th numeric component of `s`, or 0 if it has fewer.
pub open spec fn component_or_zero(s: Seq<char>, i: int) -> u32 {
    if version_numbers(s).len() > i {
        version_numbers(s)[i]
    } else {
        0
    }
}

/// Whether the NeoForge release `v` is one for Minecraft `mc_version`:
/// NeoForge numbers its releases after the minor and patch Minecraft
/// versions (NeoForge `21.4.x` is for Minecraft `1.21.4`, `21.0.x` for
/// `1.21`), so the first two numbers of the release are the minor and patch
/// numbers of the Minecraft version (the patch being 0 when absent).
pub open spec fn neoforge_fits(mc_version: Seq<char>, v: Seq<char>) -> bool {
    let minor = component_or_zero(mc_version, 1);
    let patch = component_or_zero(mc_version, 2);
    &&& version_numbers(v).len() >= 2
    &&& version_numbers(v)[0] == minor
    &&& version_numbers(v)[1] == patch
}

/// The numeric components of `s`.
pub fn version_numbers_of(s: &str) -> (r: Vec<u32>)
    ensures
        r@ == version_numbers(s@),
{
    let cs = chars_of(s);
    let parts = split_chars(cs.as_slice(), '.');
    let ghost pv = parts@.map_values(|p: Vec<char>| p@);
    let mut r: Vec<u32> = Vec::new();
    let n = parts.len();
    for i in 0..n
        invariant
            n == parts@.len(),
            pv == parts@.map_values(|p: Vec<char>| p@),
            r@ == numbers_in(pv.take(i as int)),
    {
        assert(pv.take(i + 1).drop_last() =~= pv.take(i as int));
        assert(pv.take(i + 1).last() == parts@[i as int]@);
        match parse_u32_chars(parts[i].as_slice()) {
            Some(k) => r.push(k),
            None => {},
        }
    }
    assert(pv.take(n as int) =~= pv);
    r
}

/// The NeoForge release for Minecraft `mc_version`: the last of `releases`
/// (which NeoForge lists oldest first) that fits it.
pub fn neoforge_release(mc_version: &str, releases: &[String]) -> (r: Option<String>)
    ensures
        r is None <==> forall|i: int|
            0 <= i < releases@.len() ==> !neoforge_fits(mc_version@, #[trigger] releases@[i]@),
        r matches Some(v) ==> exists|i: int|
            0 <= i < releases@.len() && neoforge_fits(mc_version@, #[trigger] releases@[i]@)
                && v@ == releases@[i]@ && forall|j: int|
                i < j < releases@.len() ==> !neoforge_fits(mc_version@, #[trigger] releases@[j]@),
{
    let parts = version_numbers_of(mc_version);
    let minor: u32 = if parts.len() > 1 { parts[1] } else { 0 };
    let patch: u32 = if parts.len() > 2 { parts[2] } else { 0 };
    let mut i: usize = releases.len();
    while i > 0
        invariant
            i <= releases@.len(),
            minor == component_or_zero(mc_version@, 1),
            patch == component_or_zero(mc_version@, 2),
            forall|j: int|
                i <= j < releases@.len() ==> !neoforge_fits(mc_version@, #[trigger] releases@[j]@),
        decreases i,
    {
        i = i - 1;
        let v_parts = version_numbers_of(releases[i].as_str());
        let fits = v_parts.len() >= 2 && v_parts[0] == minor && v_parts[1] == patch;
        assert(fits == neoforge_fits(mc_version@, releases@[i as int]@));
        if fits {
            return Some(releases[i].clone());
        }
    }
    None
}

// ── Launch ────────────────────────────────────────────────────────────────
/// Name for what `str::to_lowercase` returns for the characters `s`.
pub uninterp spec fn lowercase(s: Seq<char>) -> Seq<char>;

/// Whether every character of `s` is ASCII.
pub open spec fn all_ascii(s: Seq<char>) -> bool {
    forall|i: int| 0 <= i < s.len() ==> (#[trigger] s[i] as u32) < 128
}

/// `c` with `A`–`Z` mapped to `a`–`z`.
pub open spec fn ascii_lower_char(c: char) -> char {
    if 'A' <= c && c <= 'Z' {
        ((c as u32) + 32) as char
    } else {
        c
    }
}

/// `s` with `A`–`Z` mapped to `a`–`z`.
pub open spec fn ascii_lower(s: Seq<char>) -> Seq<char> {
    s.map_values(|c: char| ascii_lower_char(c))
}

/// `str::to_lowercase`: the contract claims that the result is a function
/// of the characters of the argument, and that for an all-ASCII argument it
/// is the argument with `A`–`Z` mapped to `a`–`z` (the Unicode lower-case
/// mapping of an ASCII character is its ASCII lower case); the Unicode case
/// mapping of other characters is not stated.
#[verifier::external_body]
fn to_lowercase(s: &str) -> (r: String)
    ensures
        r@ == lowercase(s@),
        all_ascii(s@) ==> r@ == ascii_lower(s@),
{
    s.to_lowercase()
}

/// The name of the game instance for a version and a loader:
/// `nepix-<version>-<loader in lower case>`.
pub fn instance_name(version: &str, loader_name: &str) -> (r: String)
    ensures
        r@ == "nepix-"@ + version@ + "-"@ + lowercase(loader_name@),
        all_ascii(loader_name@) ==> r@ == "nepix-"@ + version@ + "-"@ + ascii_lower(
            loader_name@,
        ),
{
    let a = concat_str("nepix-", version);
    let b = concat_str(a.as_str(), "-");
    let low = to_lowercase(loader_name);
    concat_str(b.as_str(), low.as_str())
}

/// Whether mods are installed: only when some are configured and the loader is not Vanilla.
pub fn installs_mods(mods: &[String], loader_name: &str) -> (r: bool)
    ensures
        r == (mods@.len() > 0 && loader_name@ != "Vanilla"@),
{
    mods.len() > 0 && !same_text(loader_name, "Vanilla")
}

/// The status shown while `count` mods are added.
pub fn mods_status(count: usize) -> (r: String)
    ensures
        r@ == "Adding "@ + decimal(count as nat) + " mod(s)..."@,
{
    let n = decimal_string(count as u64);
    let a = concat_str("Adding ", n.as_str());
    concat_str(a.as_str(), " mod(s)...")
}

/// The error shown when no version of a loader exists for a Minecraft version.
pub fn missing_loader_message(loader_name: &str, version: &str) -> (r: String)
    ensures
        r@ == "No "@ + loader_name@ + " version found for Minecraft "@ + version@,
{
    let a = concat_str("No ", loader_name);
    let b = concat_str(a.as_str(), " version found for Minecraft ");
    concat_str(b.as_str(), version)
}

/// The index of the first `c` in `s`.
pub open spec fn find_char(s: Seq<char>, c: char) -> Option<nat>
    decreases s.len(),
{
    if s.len() == 0 {
        None
    } else if s[0] == c {
        Some(0)
    } else {
        match find_char(s.drop_first(), c) {
            Some(k) => Some(k + 1),
            None => None,
        }
    }
}

/// `find_char` finds the first occurrence.
pub proof fn lemma_find_char(s: Seq<char>, c: char, i: int)
    requires
        0 <= i <= s.len(),
        forall|k: int| 0 <= k < i ==> #[trigger] s[k] != c,
    ensures
        i < s.len() && s[i] == c ==> find_char(s, c) == Some(i as nat),
        i == s.len() ==> find_char(s, c) is None,
    decreases i,
{
    if i > 0 {
        assert forall|k: int| 0 <= k < i - 1 implies #[trigger] s.drop_first()[k] != c by {
            assert(s.drop_first()[k] == s[k + 1]);
        }
        lemma_find_char(s.drop_first(), c, i - 1);
    } else if s.len() > 0 {
        assert(s[0] == c || i == s.len() || s[0] != c);
    }
}

/// The JVM option (name, value) that a user-given argument stands for: the
/// argument is trimmed; a blank one gives none; `name=value` gives the name
/// without its leading dashes and the text after the first `=`; anything else
/// gives itself without leading dashes and an empty value.
pub open spec fn jvm_option(arg: Seq<char>) -> Option<(Seq<char>, Seq<char>)> {
    let t = trim(arg);
    if t.len() == 0 {
        None
    } else {
        match find_char(t, '=') {
            Some(k) => Some((strip_leading(t.take(k as int), '-'), t.skip((k + 1) as int))),
            None => Some((strip_leading(t, '-'), Seq::empty())),
        }
    }
}

/// The JVM options that the arguments `args` stand for, in order.
pub open spec fn jvm_options_of(args: Seq<Seq<char>>) -> Seq<(Seq<char>, Seq<char>)>
    decreases args.len(),
{
    if args.len() == 0 {
        Seq::empty()
    } else {
        let r = jvm_options_of(args.drop_last());
        match jvm_option(args.last()) {
            Some(o) => r.push(o),
            None => r,
        }
    }
}

/// The views of a list of string pairs.
pub open spec fn pair_views(v: Seq<(String, String)>) -> Seq<(Seq<char>, Seq<char>)> {
    v.map_values(|p: (String, String)| (p.0@, p.1@))
}

/// The views of a list of strings.
pub open spec fn string_views(v: Seq<String>) -> Seq<Seq<char>> {
    v.map_values(|s: String| s@)
}

/// The option that one argument stands for.
pub fn jvm_option_of(arg: &str) -> (r: Option<(String, String)>)
    ensures
        match r {
            Some(p) => jvm_option(arg@) == Some((p.0@, p.1@)),
            None => jvm_option(arg@) is None,
        },
{
    let cs = chars_of(arg);
    let t = trim_chars(cs.as_slice());
    if t.len() == 0 {
        return None;
    }
    let n = t.len();
    let mut i: usize = 0;
    while i < n && t[i] != '='
        invariant
            n == t@.len(),
            0 <= i <= n,
            forall|k: int| 0 <= k < i ==> #[trigger] t@[k] != '=',
        decreases n - i,
    {
        i = i + 1;
    }
    proof {
        lemma_find_char(t@, '=', i as int);
    }
    if i < n {
        let mut key: Vec<char> = Vec::new();
        let mut k: usize = 0;
        while k < i
            invariant
                n == t@.len(),
                0 <= k <= i < n,
                key@ == t@.take(k as int),
            decreases i - k,
        {
            key.push(t[k]);
            assert(t@.take(k + 1) == t@.take(k as int).push(t@[k as int]));
            k = k + 1;
        }
        let mut value: Vec<char> = Vec::new();
        let mut k: usize = i + 1;
        while k < n
            invariant
                n == t@.len(),
                i < n,
                i + 1 <= k <= n,
                value@ == t@.subrange(i + 1, k as int),
            decreases n - k,
        {
            value.push(t[k]);
            assert(t@.subrange(i + 1, k + 1) == t@.subrange(i + 1, k as int).push(t@[k as int]));
            k = k + 1;
        }
        assert(t@.skip(i + 1) =~= t@.subrange(i + 1, n as int));
        let name = strip_leading_chars(key.as_slice(), '-');
        Some((string_of(name.as_slice()), string_of(value.as_slice())))
    } else {
        let name = strip_leading_chars(t.as_slice(), '-');
        Some((string_of(name.as_slice()), String::new()))
    }
}

/// The JVM options of a launch, in the order in which they are set: the
/// maximum heap, the minimum heap, the native library path, then the options
/// the user gave.
pub fn jvm_options(max_ram: &str, min_ram: &str, natives_path: &str, jvm_args: &[String]) -> (r: Vec<
    (String, String),
>)
    ensures
        pair_views(r@) == seq![
            ("Xmx"@, max_ram@),
            ("Xms"@, min_ram@),
            ("Djava.library.path"@, natives_path@),
        ] + jvm_options_of(string_views(jvm_args@)),
{
    let mut r: Vec<(String, String)> = Vec::new();
    r.push((owned("Xmx"), owned(max_ram)));
    r.push((owned("Xms"), owned(min_ram)));
    r.push((owned("Djava.library.path"), owned(natives_path)));
    let ghost head = seq![
        ("Xmx"@, max_ram@),
        ("Xms"@, min_ram@),
        ("Djava.library.path"@, natives_path@),
    ];
    assert(pair_views(r@) =~= head);
    let ghost args = string_views(jvm_args@);
    let n = jvm_args.len();
    for i in 0..n
        invariant
            n == jvm_args@.len(),
            args == string_views(jvm_args@),
            pair_views(r@) == head + jvm_options_of(args.take(i as int)),
    {
        assert(args.take(i + 1).drop_last() =~= args.take(i as int));
        assert(args.take(i + 1).last() == jvm_args@[i as int]@);
        match jvm_option_of(jvm_args[i].as_str()) {
            Some(p) => {
                let ghost before = r@;
                let ghost pv = (p.0@, p.1@);
                r.push(p);
                assert(pair_views(r@) =~= pair_views(before).push(pv));
                assert(jvm_options_of(args.take(i + 1)) == jvm_options_of(args.take(i as int)).push(pv));
                assert(pair_views(r@) =~= head + jvm_options_of(args.take(i + 1)));
            },
            None => {},
        }
    }
    assert(args.take(n as int) =~= args);
    r
}

/// What the game launcher reports while it installs and runs the game.
pub enum LaunchNotice {
    InstallStarted { total_bytes: u64 },
    InstallProgress { bytes: u64 },
    InstallCompleted { total_bytes: u64 },
    Launched { pid: u32 },
    ProcessOutput { line: String },
    ProcessExited { exit_code: i32 },
    IsInstalled,
    Launching,
    NotLaunched { error: String },
    Other,
}

/// What one report becomes: the new count of downloaded bytes, the events
/// for the screen, and whether listening stops.
pub struct Forwarded {
    pub downloaded: u64,
    pub events: Vec<McEvent>,
    pub stop: bool,
}

/// Whether `e` is the status event with text `s`.
pub open spec fn is_status(e: McEvent, s: Seq<char>) -> bool {
    e matches McEvent::Status(t) && t@ == s
}

/// Turns one report of the game launcher into events for the screen,
/// keeping count of the bytes downloaded since the installation started.
pub fn forward_notice(downloaded: u64, notice: LaunchNotice) -> (r: Forwarded)
    requires
        notice matches LaunchNotice::InstallProgress { bytes } ==> downloaded + bytes <= u64::MAX,
    ensures
        match notice {
            LaunchNotice::InstallStarted { total_bytes } => {
                &&& r.downloaded == 0
                &&& r.events@.len() == 2
                &&& r.events@[0] == McEvent::Progress { current: 0, total: total_bytes }
                &&& is_status(r.events@[1], "Downloading..."@)
                &&& !r.stop
            },
            LaunchNotice::InstallProgress { bytes } => {
                &&& r.downloaded == downloaded + bytes
                &&& r.events@ == seq![McEvent::Progress { current: r.downloaded, total: 0 }]
                &&& !r.stop
            },
            LaunchNotice::InstallCompleted { total_bytes } => {
                &&& r.downloaded == downloaded
                &&& r.events@.len() == 2
                &&& r.events@[0] == McEvent::Progress { current: total_bytes, total: total_bytes }
                &&& is_status(r.events@[1], "Install complete. Launching..."@)
                &&& !r.stop
            },
            LaunchNotice::Launched { pid } => {
                &&& r.downloaded == downloaded
                &&& r.events@ == seq![McEvent::Launched { pid }]
                &&& !r.stop
            },
            LaunchNotice::ProcessOutput { line } => {
                &&& r.downloaded == downloaded
                &&& r.events@ == seq![McEvent::ProcessOutput(line)]
                &&& !r.stop
            },
            LaunchNotice::ProcessExited { exit_code } => {
                &&& r.downloaded == downloaded
                &&& r.events@ == seq![McEvent::ProcessExited { exit_code }]
                &&& r.stop
            },
            LaunchNotice::IsInstalled => {
                &&& r.downloaded == downloaded
                &&& r.events@.len() == 1
                &&& is_status(r.events@[0], "Already installed, preparing Java..."@)
                &&& !r.stop
            },
            LaunchNotice::Launching => {
                &&& r.downloaded == downloaded
                &&& r.events@.len() == 1
                &&& is_status(r.events@[0], "Launching Minecraft..."@)
                &&& !r.stop
            },
            LaunchNotice::NotLaunched { error } => {
                &&& r.downloaded == downloaded
                &&& r.events@ == seq![McEvent::Error(error)]
                &&& r.stop
            },
            LaunchNotice::Other => {
                &&& r.downloaded == downloaded
                &&& r.events@.len() == 0
                &&& !r.stop
            },
        },
{
    let mut events: Vec<McEvent> = Vec::new();
    match notice {
        LaunchNotice::InstallStarted { total_bytes } => {
            events.push(McEvent::Progress { current: 0, total: total_bytes });
            events.push(McEvent::Status(owned("Downloading...")));
            Forwarded { downloaded: 0, events, stop: false }
        },
        LaunchNotice::InstallProgress { bytes } => {
            let d = downloaded + bytes;
            events.push(McEvent::Progress { current: d, total: 0 });
            Forwarded { downloaded: d, events, stop: false }
        },
        LaunchNotice::InstallCompleted { total_bytes } => {
            events.push(McEvent::Progress { current: total_bytes, total: total_bytes });
            events.push(McEvent::Status(owned("Install complete. Launching...")));
            Forwarded { downloaded, events, stop: false }
        },
        LaunchNotice::Launched { pid } => {
            events.push(McEvent::Launched { pid });
            Forwarded { downloaded, events, stop: false }
        },
        LaunchNotice::ProcessOutput { line } => {
            events.push(McEvent::ProcessOutput(line));
            Forwarded { downloaded, events, stop: false }
        },
        LaunchNotice::ProcessExited { exit_code } => {
            events.push(McEvent::ProcessExited { exit_code });
            Forwarded { downloaded, events, stop: true }
        },
        LaunchNotice::IsInstalled => {
            events.push(McEvent::Status(owned("Already installed, preparing Java...")));
            Forwarded { downloaded, events, stop: false }
        },
        LaunchNotice::Launching => {
            events.push(McEvent::Status(owned("Launching Minecraft...")));
            Forwarded { downloaded, events, stop: false }
        },
        LaunchNotice::NotLaunched { error } => {
            events.push(McEvent::Error(error));
            Forwarded { downloaded, events, stop: true }
        },
        LaunchNotice::Other => Forwarded { downloaded, events, stop: false },
    }
}

} // verus!
