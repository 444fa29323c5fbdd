//! The registry of known asset families: parses denomination strings into a
//! canonical base denomination with its display units.
use vstd::prelude::*;
use vstd::string::*;

verus! {

/// What the regular expression `pattern` captures in `text`: `None` when
/// the pattern is invalid or does not match, and otherwise the text of the
/// group named `data`, or the empty string when it took no part.
pub uninterp spec fn pattern_capture(pattern: Seq<char>, text: Seq<char>) -> Option<Seq<char>>;

/// Relies on `regex::Regex::new`, `Regex::captures`, `Captures::name` and
/// `Match::as_str`: compiles `pattern` and, when it matches `text`, returns
/// the text of its group named `data` (empty when the group took no part).
#[verifier::external_body]
fn capture_data(pattern: &str, text: &str) -> (r: Option<String>)
    ensures
        r matches Some(d) ==> pattern_capture(pattern@, text@) == Some(d@),
        r is None ==> pattern_capture(pattern@, text@) is None,
{
    let re = match regex::Regex::new(pattern) {
        Ok(re) => re,
        Err(_) => return None,
    };
    let caps = match re.captures(text) {
        Some(caps) => caps,
        None => return None,
    };
    match caps.name("data") {
        Some(m) => Some(m.as_str().to_string()),
        None => Some(String::new()),
    }
}

/// A display unit of a denomination: `exponent` powers of ten of the base unit.
#[derive(Debug)]
pub struct UnitData {
    pub exponent: u8,
    pub denom: String,
}

/// A canonical base denomination with its display units.
#[derive(Debug)]
pub struct Denom {
    pub base_denom: String,
    pub units: Vec<UnitData>,
}

/// One unit of a denomination: index 0 is the base unit, index `j + 1` the
/// display unit `units[j]`.
#[derive(Debug)]
pub struct Unit {
    pub denom: Denom,
    pub unit_index: usize,
}

/// A denomination as plain values: base string and (exponent, string) of
/// each display unit.
pub type DenomView = (Seq<char>, Seq<(u8, Seq<char>)>);

pub open spec fn denom_view(d: Denom) -> DenomView {
    (d.base_denom@, d.units@.map_values(|u: UnitData| (u.exponent, u.denom@)))
}

/// The known asset families, each of which makes its denomination from the
/// `data` that its patterns capture.
#[derive(Debug, Clone, Copy, PartialEq, Eq, Structural)]
pub enum AssetFamily {
    /// The staking token: `upenumbra`, displayed as `penumbra` and `mpenumbra`.
    Staking,
    /// A validator's delegation token: `udelegation_<identity>`, displayed as
    /// `delegation_<identity>` and `mdelegation_<identity>`.
    Delegation,
}

/// The denomination that `family` makes of captured `data`.
pub open spec fn family_denom(family: AssetFamily, data: Seq<char>) -> DenomView {
    match family {
        AssetFamily::Staking => ("upenumbra"@, seq![(6u8, "penumbra"@), (3u8, "mpenumbra"@)]),
        AssetFamily::Delegation => (
            "udelegation_"@ + data,
            seq![(6u8, "delegation_"@ + data), (3u8, "mdelegation_"@ + data)],
        ),
    }
}

fn prefixed(prefix: &str, data: &str) -> (r: String)
    ensures
        r@ == prefix@ + data@,
{
    let mut s = String::from_str(prefix);
    s.append(data);
    s
}

/// Builds the denomination of `family` from captured `data`.
pub fn family_construct(family: AssetFamily, data: &str) -> (r: Denom)
    ensures
        denom_view(r) == family_denom(family, data@),
{
    let r = match family {
        AssetFamily::Staking => Denom {
            base_denom: String::from_str("upenumbra"),
            units: vec![
                UnitData { exponent: 6, denom: String::from_str("penumbra") },
                UnitData { exponent: 3, denom: String::from_str("mpenumbra") },
            ],
        },
        AssetFamily::Delegation => Denom {
            base_denom: prefixed("udelegation_", data),
            units: vec![
                UnitData { exponent: 6, denom: prefixed("delegation_", data) },
                UnitData { exponent: 3, denom: prefixed("mdelegation_", data) },
            ],
        },
    };
    proof {
        assert(denom_view(r).1 =~= family_denom(family, data@).1);
    }
    r
}

/// A registered asset family: the pattern of its base denomination and the
/// patterns of its display units, in the order of the family's units.
#[derive(Debug)]
pub struct RegisteredAsset {
    pub base_pattern: String,
    pub unit_patterns: Vec<String>,
    pub family: AssetFamily,
}

/// A registry of known asset families.
#[derive(Debug)]
pub struct Registry {
    pub assets: Vec<RegisteredAsset>,
}

/// The first family, from position `i` on, whose base pattern matches `raw`.
pub open spec fn first_base_from(a: Seq<RegisteredAsset>, raw: Seq<char>, i: int) -> Option<int>
    decreases a.len() - i,
{
    if i < 0 || i >= a.len() {
        None
    } else if pattern_capture(a[i].base_pattern@, raw) is Some {
        Some(i)
    } else {
        first_base_from(a, raw, i + 1)
    }
}

/// The first unit, from position `j` on, whose pattern matches `raw`.
pub open spec fn first_unit_from(units: Seq<String>, raw: Seq<char>, j: int) -> Option<int>
    decreases units.len() - j,
{
    if j < 0 || j >= units.len() {
        None
    } else if pattern_capture(units[j]@, raw) is Some {
        Some(j)
    } else {
        first_unit_from(units, raw, j + 1)
    }
}

/// The first (family, unit) pair, from family `i` on, whose display pattern
/// matches `raw`.
pub open spec fn first_display_from(a: Seq<RegisteredAsset>, raw: Seq<char>, i: int) -> Option<
    (int, int),
>
    decreases a.len() - i,
{
    if i < 0 || i >= a.len() {
        None
    } else if let Some(j) = first_unit_from(a[i].unit_patterns@, raw, 0) {
        Some((i, j))
    } else {
        first_display_from(a, raw, i + 1)
    }
}

/// What `parse_denom` yields, given the first matching base family (with
/// what it captured) and whether a display pattern matched.
pub open spec fn denom_choice(
    a: Seq<RegisteredAsset>,
    raw: Seq<char>,
    base: Option<(int, Seq<char>)>,
    display_matched: bool,
) -> Option<DenomView> {
    if let Some((i, data)) = base {
        Some(family_denom(a[i].family, data))
    } else if display_matched {
        None
    } else {
        Some((raw, Seq::empty()))
    }
}

impl Registry {
    /// The denomination that `parse_denom` gives for `raw`.
    pub open spec fn spec_parse_denom(self, raw: Seq<char>) -> Option<DenomView> {
        let a = self.assets@;
        denom_choice(
            a,
            raw,
            match first_base_from(a, raw, 0) {
                Some(i) => Some((i, pattern_capture(a[i].base_pattern@, raw)->0)),
                None => None,
            },
            first_display_from(a, raw, 0) is Some,
        )
    }

    /// The denomination of the first family whose base pattern matched
    /// (`base`, with what it captured), or `raw` as an opaque base
    /// denomination when none did.
    fn base_or_opaque(&self, raw: &str, base: Option<(usize, String)>) -> (r: Denom)
        requires
            base matches Some((i, _)) ==> i < self.assets@.len(),
        ensures
            denom_choice(
                self.assets@,
                raw@,
                match base {
                    Some((i, data)) => Some((i as int, data@)),
                    None => None,
                },
                false,
            ) == Some(denom_view(r)),
    {
        match base {
            Some((i, data)) => family_construct(self.assets[i].family, data.as_str()),
            None => {
                let d = Denom { base_denom: String::from_str(raw), units: Vec::new() };
                proof {
                    assert(denom_view(d).1 =~= Seq::<(u8, Seq<char>)>::empty());
                }
                d
            },
        }
    }

    /// Builds the denomination once the patterns have been tried: `base` is
    /// the first family whose base pattern matched, with what it captured,
    /// and `display_matched` tells whether a display pattern matched.
    pub fn denom_from_matches(&self, raw: &str, base: Option<(usize, String)>, display_matched: bool) -> (r: Option<Denom>)
        requires
            base matches Some((i, _)) ==> i < self.assets@.len(),
        ensures
            match r {
                Some(d) => denom_choice(
                    self.assets@,
                    raw@,
                    match base {
                        Some((i, data)) => Some((i as int, data@)),
                        None => None,
                    },
                    display_matched,
                ) == Some(denom_view(d)),
                None => denom_choice(
                    self.assets@,
                    raw@,
                    match base {
                        Some((i, data)) => Some((i as int, data@)),
                        None => None,
                    },
                    display_matched,
                ) is None,
            },
    {
        if base.is_none() && display_matched {
            None
        } else {
            Some(self.base_or_opaque(raw, base))
        }
    }

    /// The first family whose base pattern matches `raw`, with what it captured.
    fn match_base(&self, raw: &str) -> (r: Option<(usize, String)>)
        ensures
            match r {
                Some((i, data)) => first_base_from(self.assets@, raw@, 0) == Some(i as int)
                    && pattern_capture(self.assets@[i as int].base_pattern@, raw@) == Some(data@),
                None => first_base_from(self.assets@, raw@, 0) is None,
            },
    {
        let mut i: usize = 0;
        while i < self.assets.len()
            invariant
                0 <= i <= self.assets@.len(),
                first_base_from(self.assets@, raw@, 0) == first_base_from(self.assets@, raw@, i as int),
            decreases self.assets@.len() - i,
        {
            match capture_data(self.assets[i].base_pattern.as_str(), raw) {
                Some(data) => {
                    return Some((i, data));
                },
                None => {},
            }
            i = i + 1;
        }
        None
    }

    /// The first unit of family `i` whose display pattern matches `raw`, with
    /// what it captured.
    fn match_unit(&self, i: usize, raw: &str) -> (r: Option<(usize, String)>)
        requires
            i < self.assets@.len(),
        ensures
            match r {
                Some((j, data)) => first_unit_from(self.assets@[i as int].unit_patterns@, raw@, 0)
                    == Some(j as int) && pattern_capture(
                    self.assets@[i as int].unit_patterns@[j as int]@,
                    raw@,
                ) == Some(data@),
                None => first_unit_from(self.assets@[i as int].unit_patterns@, raw@, 0) is None,
            },
    {
        let units = &self.assets[i].unit_patterns;
        let mut j: usize = 0;
        while j < units.len()
            invariant
                0 <= j <= units@.len(),
                units@ == self.assets@[i as int].unit_patterns@,
                first_unit_from(units@, raw@, 0) == first_unit_from(units@, raw@, j as int),
            decreases units@.len() - j,
        {
            match capture_data(units[j].as_str(), raw) {
                Some(data) => {
                    return Some((j, data));
                },
                None => {},
            }
            j = j + 1;
        }
        None
    }

    /// The first (family, unit) whose display pattern matches `raw`, with
    /// what it captured.
    fn match_display(&self, raw: &str) -> (r: Option<(usize, usize, String)>)
        ensures
            match r {
                Some((i, j, data)) => first_display_from(self.assets@, raw@, 0) == Some(
                    (i as int, j as int),
                ) && i < self.assets@.len() && j < self.assets@[i as int].unit_patterns@.len()
                    && pattern_capture(
                    self.assets@[i as int].unit_patterns@[j as int]@,
                    raw@,
                ) == Some(data@),
                None => first_display_from(self.assets@, raw@, 0) is None,
            },
    {
        let mut i: usize = 0;
        while i < self.assets.len()
            invariant
                0 <= i <= self.assets@.len(),
                first_display_from(self.assets@, raw@, 0) == first_display_from(
                    self.assets@,
                    raw@,
                    i as int,
                ),
            decreases self.assets@.len() - i,
        {
            match self.match_unit(i, raw) {
                Some((j, data)) => {
                    proof {
                        lemma_first_unit_in_range(self.assets@[i as int].unit_patterns@, raw@, 0);
                    }
                    return Some((i, j, data));
                },
                None => {},
            }
            i = i + 1;
        }
        None
    }

    /// Parses `raw` as a base denomination: a known base denomination gives
    /// its family's denomination, a known display unit gives `None`, and any
    /// other string is accepted as an opaque base denomination without
    /// display units.
    pub fn parse_denom(&self, raw: &str) -> (r: Option<Denom>)
        ensures
            match r {
                Some(d) => self.spec_parse_denom(raw@) == Some(denom_view(d)),
                None => self.spec_parse_denom(raw@) is None,
            },
    {
        let base = self.match_base(raw);
        proof {
            if let Some((i, _)) = base {
                lemma_first_base_in_range(self.assets@, raw@, 0);
            }
        }
        let display_matched = match base {
            Some(_) => false,
            None => self.match_display(raw).is_some(),
        };
        self.denom_from_matches(raw, base, display_matched)
    }

    /// The unit that `parse_unit` gives for `raw`: its denomination and index.
    pub open spec fn spec_parse_unit(self, raw: Seq<char>) -> (DenomView, int) {
        let a = self.assets@;
        match first_display_from(a, raw, 0) {
            Some((i, j)) => (
                family_denom(a[i].family, pattern_capture(a[i].unit_patterns@[j]@, raw)->0),
                j + 1,
            ),
            None => (self.spec_parse_denom(raw)->0, 0),
        }
    }

    /// Parses `raw` as a unit: a known display unit gives that unit of its
    /// family's denomination; anything else gives the base unit of what
    /// `parse_denom` makes of it.
    pub fn parse_unit(&self, raw: &str) -> (r: Unit)
        ensures
            (denom_view(r.denom), r.unit_index as int) == self.spec_parse_unit(raw@),
    {
        match self.match_display(raw) {
            Some((i, j, data)) => {
                let denom = family_construct(self.assets[i].family, data.as_str());
                let count = self.assets[i].unit_patterns.len();
                proof {
                    assert(j < count);
                }
                Unit { denom, unit_index: j + 1 }
            },
            None => {
                let base = self.match_base(raw);
                proof {
                    if let Some((i, _)) = base {
                        lemma_first_base_in_range(self.assets@, raw@, 0);
                    }
                }
                Unit { denom: self.base_or_opaque(raw, base), unit_index: 0 }
            },
        }
    }
}

proof fn lemma_first_base_in_range(a: Seq<RegisteredAsset>, raw: Seq<char>, i: int)
    ensures
        first_base_from(a, raw, i) matches Some(k) ==> 0 <= k < a.len() && pattern_capture(
            a[k].base_pattern@,
            raw,
        ) is Some,
    decreases a.len() - i,
{
    if 0 <= i < a.len() {
        lemma_first_base_in_range(a, raw, i + 1);
    }
}

proof fn lemma_first_unit_in_range(units: Seq<String>, raw: Seq<char>, j: int)
    ensures
        first_unit_from(units, raw, j) matches Some(k) ==> 0 <= k < units.len(),
    decreases units.len() - j,
{
    if 0 <= j < units.len() {
        lemma_first_unit_in_range(units, raw, j + 1);
    }
}

/// Parsing a denomination is deterministic: two parses of the same string
/// give the same denomination.
pub proof fn lemma_parse_denom_deterministic(registry: Registry, raw: Seq<char>, a: Denom, b: Denom)
    requires
        registry.spec_parse_denom(raw) == Some(denom_view(a)),
        registry.spec_parse_denom(raw) == Some(denom_view(b)),
    ensures
        denom_view(a) == denom_view(b),
        a.base_denom@ == b.base_denom@,
{
}

/// Collects registered asset families.
#[derive(Debug)]
pub struct Builder {
    pub assets: Vec<RegisteredAsset>,
}

impl Builder {
    /// A builder with no family.
    pub fn new() -> (r: Builder)
        ensures
            r.assets@.len() == 0,
    {
        Builder { assets: Vec::new() }
    }

    /// Adds an asset family: the pattern of its base denomination and those
    /// of its display units, each with an optional capture named `data` that
    /// must be the same pattern in all of them, and the family whose
    /// constructor turns `data` into the denomination. The unit patterns must
    /// be in the order of the family's units.
    pub fn add_asset(self, base_regex: &str, unit_regexes: &[&str], family: AssetFamily) -> (r: Builder)
        ensures
            r.assets@.len() == self.assets@.len() + 1,
            forall|i: int| 0 <= i < self.assets@.len() ==> #[trigger] r.assets@[i] == self.assets@[i],
            r.assets@.last().base_pattern@ == base_regex@,
            r.assets@.last().family == family,
            r.assets@.last().unit_patterns@.len() == unit_regexes@.len(),
            forall|j: int|
                0 <= j < unit_regexes@.len() ==> (#[trigger] r.assets@.last().unit_patterns@[j])@
                    == unit_regexes@[j]@,
    {
        let mut units: Vec<String> = Vec::new();
        let mut j: usize = 0;
        while j < unit_regexes.len()
            invariant
                0 <= j <= unit_regexes@.len(),
                units@.len() == j,
                forall|k: int| 0 <= k < j ==> (#[trigger] units@[k])@ == unit_regexes@[k]@,
            decreases unit_regexes@.len() - j,
        {
            units.push(String::from_str(unit_regexes[j]));
            j = j + 1;
        }
        let mut assets = self.assets;
        assets.push(RegisteredAsset { base_pattern: String::from_str(base_regex), unit_patterns: units, family });
        Builder { assets }
    }

    /// The registry of the collected families.
    pub fn build(self) -> (r: Registry)
        ensures
            r.assets@ == self.assets@,
    {
        Registry { assets: self.assets }
    }
}

/// The registry of the known asset families: the staking token and the
/// validators' delegation tokens.
pub fn known_assets() -> (r: Registry)
    ensures
        r.assets@.len() == 2,
        r.assets@[0].base_pattern@ == "^upenumbra$"@,
        r.assets@[0].family == AssetFamily::Staking,
        r.assets@[0].unit_patterns@.len() == 2,
        r.assets@[0].unit_patterns@[0]@ == "^penumbra$"@,
        r.assets@[0].unit_patterns@[1]@ == "^mpenumbra$"@,
        r.assets@[1].base_pattern@ == "^udelegation_(?P<data>penumbravalid1[a-zA-HJ-NP-Z0-9]+)$"@,
        r.assets@[1].family == AssetFamily::Delegation,
        r.assets@[1].unit_patterns@.len() == 2,
        r.assets@[1].unit_patterns@[0]@ == "^delegation_(?P<data>penumbravalid1[a-zA-HJ-NP-Z0-9]+)$"@,
        r.assets@[1].unit_patterns@[1]@ == "^mdelegation_(?P<data>penumbravalid1[a-zA-HJ-NP-Z0-9]+)$"@,
{
    let staking_units: [&str; 2] = ["^penumbra$", "^mpenumbra$"];
    let delegation_units: [&str; 2] = [
        "^delegation_(?P<data>penumbravalid1[a-zA-HJ-NP-Z0-9]+)$",
        "^mdelegation_(?P<data>penumbravalid1[a-zA-HJ-NP-Z0-9]+)$",
    ];
    Builder::new().add_asset("^upenumbra$", staking_units.as_slice(), AssetFamily::Staking).add_asset(
        "^udelegation_(?P<data>penumbravalid1[a-zA-HJ-NP-Z0-9]+)$",
        delegation_units.as_slice(),
        AssetFamily::Delegation,
    ).build()
}

} // verus!
