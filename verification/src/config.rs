//! The configurable second tier of the channel classifier: named groups
//! with exact-prefix lists and wildcard patterns, a priority order for
//! fallback matching, and the hard-coded default configuration.
//!
//! A configuration is loaded (or built) once and read-only thereafter;
//! classification is stateless and side-effect-free.

use vstd::prelude::*;

use crate::patterns::{
    channel_prefix, matches_pattern_simd, spec_matches_pattern, spec_prefix_of, str_eq,
};

verus! {

/// One semantic bucket of channels: a display name, exact prefixes and
/// wildcard patterns that select it, and whether it is the basic RGB
/// group.
#[derive(Debug, PartialEq)]
pub struct GroupDefinition {
    pub name: String,
    pub prefixes: Vec<String>,
    pub patterns: Vec<String>,
    pub basic_rgb: bool,
}

/// Mathematical image of a [`GroupDefinition`].
#[verifier::ext_equal]
pub ghost struct GroupDefinitionV {
    pub name: Seq<char>,
    pub prefixes: Seq<Seq<char>>,
    pub patterns: Seq<Seq<char>>,
    pub basic_rgb: bool,
}

/// The images of a sequence of strings.
pub open spec fn strings_view(s: Seq<String>) -> Seq<Seq<char>> {
    s.map_values(|x: String| x@)
}

impl View for GroupDefinition {
    type V = GroupDefinitionV;

    open spec fn view(&self) -> GroupDefinitionV {
        GroupDefinitionV {
            name: self.name@,
            prefixes: strings_view(self.prefixes@),
            patterns: strings_view(self.patterns@),
            basic_rgb: self.basic_rgb,
        }
    }
}

/// Display names used when no configured group answers.
#[derive(Debug, PartialEq)]
pub struct FallbackNames {
    /// For a basic RGB channel when no group carries the basic RGB flag.
    pub basic_rgb: String,
    /// For any other channel when no group matches and no scene-objects
    /// group exists.
    pub default_label: String,
}

/// Where the surrounding application looks for its input files.
#[derive(Debug, PartialEq)]
pub struct ConfigPaths {
    pub data_folder: String,
}

/// The settings block of a configuration.
#[derive(Debug, PartialEq)]
pub struct ConfigSettings {
    /// The canonical basic RGB channel tokens.
    pub basic_rgb_channels: Vec<String>,
    /// Group keys in the order the fallback matcher tries them.
    pub group_priority_order: Vec<String>,
    pub fallback_names: FallbackNames,
    pub paths: ConfigPaths,
}

/// A full classifier configuration: settings, the keyed group
/// definitions, and the default group label.
#[derive(Debug, PartialEq)]
pub struct ChannelGroupConfig {
    pub config: ConfigSettings,
    /// Group definitions keyed by group key; keys are distinct, and lookup
    /// takes the first entry with the sought key.
    pub groups: Vec<(String, GroupDefinition)>,
    pub default_group: String,
}

/// Mathematical image of a [`ChannelGroupConfig`].
#[verifier::ext_equal]
pub ghost struct ConfigV {
    pub basic_rgb_channels: Seq<Seq<char>>,
    pub group_priority_order: Seq<Seq<char>>,
    pub fallback_basic_rgb: Seq<char>,
    pub fallback_default: Seq<char>,
    pub data_folder: Seq<char>,
    pub groups: Seq<(Seq<char>, GroupDefinitionV)>,
    pub default_group: Seq<char>,
}

/// The images of the keyed group definitions.
pub open spec fn groups_view(s: Seq<(String, GroupDefinition)>) -> Seq<
    (Seq<char>, GroupDefinitionV),
> {
    s.map_values(|p: (String, GroupDefinition)| (p.0@, p.1@))
}

impl View for ChannelGroupConfig {
    type V = ConfigV;

    open spec fn view(&self) -> ConfigV {
        ConfigV {
            basic_rgb_channels: strings_view(self.config.basic_rgb_channels@),
            group_priority_order: strings_view(self.config.group_priority_order@),
            fallback_basic_rgb: self.config.fallback_names.basic_rgb@,
            fallback_default: self.config.fallback_names.default_label@,
            data_folder: self.config.paths.data_folder@,
            groups: groups_view(self.groups@),
            default_group: self.default_group@,
        }
    }
}

/// The definition stored under `key`, taking the first entry with that
/// key.
pub open spec fn spec_lookup_group(
    groups: Seq<(Seq<char>, GroupDefinitionV)>,
    key: Seq<char>,
) -> Option<GroupDefinitionV>
    decreases groups.len(),
{
    if groups.len() == 0 {
        None
    } else if groups[0].0 == key {
        Some(groups[0].1)
    } else {
        spec_lookup_group(groups.drop_first(), key)
    }
}

/// The first group carrying the basic RGB flag, in stored order.
pub open spec fn spec_first_basic_rgb(groups: Seq<(Seq<char>, GroupDefinitionV)>) -> Option<
    GroupDefinitionV,
>
    decreases groups.len(),
{
    if groups.len() == 0 {
        None
    } else if groups[0].1.basic_rgb {
        Some(groups[0].1)
    } else {
        spec_first_basic_rgb(groups.drop_first())
    }
}

/// Whether a group selects classification key `p`: by exact membership in
/// its prefix list, or by one of its wildcard patterns.
pub open spec fn spec_group_matches(g: GroupDefinitionV, p: Seq<char>) -> bool {
    (exists|i: int| 0 <= i < g.prefixes.len() && g.prefixes[i] == p) || (exists|i: int|
        0 <= i < g.patterns.len() && spec_matches_pattern(p, g.patterns[i]))
}

/// The display name of the first group, in priority order, that exists
/// and selects `p`.
pub open spec fn spec_walk_priority(
    keys: Seq<Seq<char>>,
    groups: Seq<(Seq<char>, GroupDefinitionV)>,
    p: Seq<char>,
) -> Option<Seq<char>>
    decreases keys.len(),
{
    if keys.len() == 0 {
        None
    } else {
        match spec_lookup_group(groups, keys[0]) {
            Some(g) => if spec_group_matches(g, p) {
                Some(g.name)
            } else {
                spec_walk_priority(keys.drop_first(), groups, p)
            },
            None => spec_walk_priority(keys.drop_first(), groups, p),
        }
    }
}

/// The canonical basic RGB channel names.
pub open spec fn spec_is_basic_rgb_name(name: Seq<char>) -> bool {
    name == "R"@ || name == "G"@ || name == "B"@ || name == "A"@
}

/// The display name the configured classifier assigns a channel name:
/// basic RGB names go to the first group flagged basic RGB (or the
/// configured fallback); any other name is keyed by its prefix and walked
/// through the priority-ordered groups; when none matches, the
/// scene-objects group's display name answers, or the configured default
/// label when that group does not exist.
pub open spec fn spec_configured_group(name: Seq<char>, c: ConfigV) -> Seq<char> {
    if spec_is_basic_rgb_name(name) {
        match spec_first_basic_rgb(c.groups) {
            Some(g) => g.name,
            None => c.fallback_basic_rgb,
        }
    } else {
        let p = spec_prefix_of(name);
        match spec_walk_priority(c.group_priority_order, c.groups, p) {
            Some(n) => n,
            None => match spec_lookup_group(c.groups, "scene_objects"@) {
                Some(g) => g.name,
                None => c.fallback_default,
            },
        }
    }
}

/// The six group definitions of the default configuration, keyed and in
/// insertion order: base, scene, technical, light, cryptomatte and
/// scene-objects.
pub open spec fn spec_default_groups() -> Seq<(Seq<char>, GroupDefinitionV)> {
    seq![
        (
            "base"@,
            GroupDefinitionV {
                name: "Base"@,
                prefixes: seq!["Beauty"@],
                patterns: Seq::empty(),
                basic_rgb: true,
            },
        ),
        (
            "scene"@,
            GroupDefinitionV {
                name: "Scene"@,
                prefixes: seq![
                    "Background"@,
                    "Translucency"@,
                    "Translucency0"@,
                    "VirtualBeauty"@,
                    "ZDepth"@,
                ],
                patterns: Seq::empty(),
                basic_rgb: false,
            },
        ),
        (
            "technical"@,
            GroupDefinitionV {
                name: "Technical"@,
                prefixes: seq!["RenderStamp"@, "RenderStamp0"@],
                patterns: Seq::empty(),
                basic_rgb: false,
            },
        ),
        (
            "light"@,
            GroupDefinitionV {
                name: "Light"@,
                prefixes: seq!["Sky"@, "Sun"@, "LightMix"@],
                patterns: seq!["Light*"@],
                basic_rgb: false,
            },
        ),
        (
            "cryptomatte"@,
            GroupDefinitionV {
                name: "Cryptomatte"@,
                prefixes: seq!["Cryptomatte"@, "Cryptomatte0"@],
                patterns: Seq::empty(),
                basic_rgb: false,
            },
        ),
        (
            "scene_objects"@,
            GroupDefinitionV {
                name: "Scene Objects"@,
                prefixes: Seq::empty(),
                patterns: seq!["ID*"@, "_*"@],
                basic_rgb: false,
            },
        ),
    ]
}

/// The configuration used when none is supplied from outside: the six
/// default groups, priority order cryptomatte, light, scene, technical,
/// scene-objects, canonical RGBA basic channels, and "Other" as the
/// default label.
pub open spec fn spec_default_config() -> ConfigV {
    ConfigV {
        basic_rgb_channels: seq!["R"@, "G"@, "B"@, "A"@],
        group_priority_order: seq![
            "cryptomatte"@,
            "light"@,
            "scene"@,
            "technical"@,
            "scene_objects"@,
        ],
        fallback_basic_rgb: "Basic RGB"@,
        fallback_default: "Other"@,
        data_folder: "data"@,
        groups: spec_default_groups(),
        default_group: "Other"@,
    }
}

/// Build the hard-coded default configuration.
pub fn create_default_config() -> (r: ChannelGroupConfig)
    ensures
        r@ == spec_default_config(),
{
    let mut groups: Vec<(String, GroupDefinition)> = Vec::new();

    let mut base_prefixes: Vec<String> = Vec::new();
    base_prefixes.push("Beauty".to_owned());
    groups.push(
        (
            "base".to_owned(),
            GroupDefinition {
                name: "Base".to_owned(),
                prefixes: base_prefixes,
                patterns: Vec::new(),
                basic_rgb: true,
            },
        ),
    );

    let mut scene_prefixes: Vec<String> = Vec::new();
    scene_prefixes.push("Background".to_owned());
    scene_prefixes.push("Translucency".to_owned());
    scene_prefixes.push("Translucency0".to_owned());
    scene_prefixes.push("VirtualBeauty".to_owned());
    scene_prefixes.push("ZDepth".to_owned());
    groups.push(
        (
            "scene".to_owned(),
            GroupDefinition {
                name: "Scene".to_owned(),
                prefixes: scene_prefixes,
                patterns: Vec::new(),
                basic_rgb: false,
            },
        ),
    );

    let mut technical_prefixes: Vec<String> = Vec::new();
    technical_prefixes.push("RenderStamp".to_owned());
    technical_prefixes.push("RenderStamp0".to_owned());
    groups.push(
        (
            "technical".to_owned(),
            GroupDefinition {
                name: "Technical".to_owned(),
                prefixes: technical_prefixes,
                patterns: Vec::new(),
                basic_rgb: false,
            },
        ),
    );

    let mut light_prefixes: Vec<String> = Vec::new();
    light_prefixes.push("Sky".to_owned());
    light_prefixes.push("Sun".to_owned());
    light_prefixes.push("LightMix".to_owned());
    let mut light_patterns: Vec<String> = Vec::new();
    light_patterns.push("Light*".to_owned());
    groups.push(
        (
            "light".to_owned(),
            GroupDefinition {
                name: "Light".to_owned(),
                prefixes: light_prefixes,
                patterns: light_patterns,
                basic_rgb: false,
            },
        ),
    );

    let mut crypto_prefixes: Vec<String> = Vec::new();
    crypto_prefixes.push("Cryptomatte".to_owned());
    crypto_prefixes.push("Cryptomatte0".to_owned());
    groups.push(
        (
            "cryptomatte".to_owned(),
            GroupDefinition {
                name: "Cryptomatte".to_owned(),
                prefixes: crypto_prefixes,
                patterns: Vec::new(),
                basic_rgb: false,
            },
        ),
    );

    let mut objects_patterns: Vec<String> = Vec::new();
    objects_patterns.push("ID*".to_owned());
    objects_patterns.push("_*".to_owned());
    groups.push(
        (
            "scene_objects".to_owned(),
            GroupDefinition {
                name: "Scene Objects".to_owned(),
                prefixes: Vec::new(),
                patterns: objects_patterns,
                basic_rgb: false,
            },
        ),
    );

    let mut basic_rgb_channels: Vec<String> = Vec::new();
    basic_rgb_channels.push("R".to_owned());
    basic_rgb_channels.push("G".to_owned());
    basic_rgb_channels.push("B".to_owned());
    basic_rgb_channels.push("A".to_owned());

    let mut group_priority_order: Vec<String> = Vec::new();
    group_priority_order.push("cryptomatte".to_owned());
    group_priority_order.push("light".to_owned());
    group_priority_order.push("scene".to_owned());
    group_priority_order.push("technical".to_owned());
    group_priority_order.push("scene_objects".to_owned());

    let r = ChannelGroupConfig {
        config: ConfigSettings {
            basic_rgb_channels,
            group_priority_order,
            fallback_names: FallbackNames {
                basic_rgb: "Basic RGB".to_owned(),
                default_label: "Other".to_owned(),
            },
            paths: ConfigPaths { data_folder: "data".to_owned() },
        },
        groups,
        default_group: "Other".to_owned(),
    };
    proof {
        assert(r@.groups =~~= spec_default_groups());
        assert(r@ =~~= spec_default_config());
    }
    r
}

/// Whether `text` matches the wildcard pattern `pattern` (see
/// [`spec_matches_pattern`] for the exact semantics).
pub fn matches_pattern(text: &str, pattern: &str) -> (r: bool)
    ensures
        r == spec_matches_pattern(text@, pattern@),
{
    matches_pattern_simd(text, pattern)
}

/// The definition stored under `key`, or nothing when no entry has that
/// key.
fn find_group<'a>(groups: &'a Vec<(String, GroupDefinition)>, key: &str) -> (r: Option<
    &'a GroupDefinition,
>)
    ensures
        (match r {
            Some(g) => spec_lookup_group(groups_view(groups@), key@) == Some(g@),
            None => spec_lookup_group(groups_view(groups@), key@) is None,
        }),
{
    let ghost gv = groups_view(groups@);
    proof {
        assert(gv.skip(0) =~= gv);
    }
    let mut i: usize = 0;
    while i < groups.len()
        invariant
            gv == groups_view(groups@),
            0 <= i <= groups@.len(),
            spec_lookup_group(gv, key@) == spec_lookup_group(gv.skip(i as int), key@),
        decreases groups@.len() - i,
    {
        let entry = &groups[i];
        proof {
            assert(gv.skip(i as int)[0] == gv[i as int]);
        }
        if str_eq(entry.0.as_str(), key) {
            return Some(&entry.1);
        }
        proof {
            assert(gv.skip(i as int).drop_first() =~= gv.skip(i as int + 1));
        }
        i = i + 1;
    }
    None
}

/// Whether a group selects classification key `p`.
fn group_matches(g: &GroupDefinition, p: &str) -> (r: bool)
    ensures
        r == spec_group_matches(g@, p@),
{
    let mut i: usize = 0;
    while i < g.prefixes.len()
        invariant
            0 <= i <= g.prefixes@.len(),
            forall|j: int| 0 <= j < i ==> strings_view(g.prefixes@)[j] != p@,
        decreases g.prefixes@.len() - i,
    {
        if str_eq(g.prefixes[i].as_str(), p) {
            proof {
                assert(g@.prefixes[i as int] == p@);
            }
            return true;
        }
        i = i + 1;
    }
    let mut k: usize = 0;
    while k < g.patterns.len()
        invariant
            0 <= k <= g.patterns@.len(),
            forall|j: int| 0 <= j < i ==> strings_view(g.prefixes@)[j] != p@,
            i == g.prefixes@.len(),
            forall|j: int|
                0 <= j < k ==> !spec_matches_pattern(p@, strings_view(g.patterns@)[j]),
        decreases g.patterns@.len() - k,
    {
        if matches_pattern_simd(p, g.patterns[k].as_str()) {
            proof {
                assert(spec_matches_pattern(p@, g@.patterns[k as int]));
            }
            return true;
        }
        k = k + 1;
    }
    false
}

/// Classify one channel name against a configuration, returning the
/// display name of its group.
pub fn determine_channel_group(channel_name: &str, config: &ChannelGroupConfig) -> (r: String)
    ensures
        r@ == spec_configured_group(channel_name@, config@),
{
    let ghost cv = config@;
    if str_eq(channel_name, "R") || str_eq(channel_name, "G") || str_eq(channel_name, "B")
        || str_eq(channel_name, "A") {
        proof {
            assert(cv.groups.skip(0) =~= cv.groups);
        }
        let mut i: usize = 0;
        while i < config.groups.len()
            invariant
                cv == config@,
                spec_is_basic_rgb_name(channel_name@),
                0 <= i <= config.groups@.len(),
                spec_first_basic_rgb(cv.groups) == spec_first_basic_rgb(
                    cv.groups.skip(i as int),
                ),
            decreases config.groups@.len() - i,
        {
            proof {
                assert(cv.groups.skip(i as int)[0] == cv.groups[i as int]);
            }
            if config.groups[i].1.basic_rgb {
                proof {
                    assert(cv.groups[i as int] == (
                        config.groups@[i as int].0@,
                        config.groups@[i as int].1@,
                    ));
                    assert(spec_first_basic_rgb(cv.groups.skip(i as int)) == Some(
                        cv.groups[i as int].1,
                    ));
                }
                return config.groups[i].1.name.clone();
            }
            proof {
                assert(cv.groups.skip(i as int).drop_first() =~= cv.groups.skip(i as int + 1));
            }
            i = i + 1;
        }
        proof {
            assert(cv.groups.skip(config.groups@.len() as int) =~= Seq::<(
                Seq<char>,
                GroupDefinitionV,
            )>::empty());
            assert(spec_first_basic_rgb(cv.groups) is None);
        }
        return config.config.fallback_names.basic_rgb.clone();
    }
    let prefix = channel_prefix(channel_name);
    let ghost pv = strings_view(config.config.group_priority_order@);
    proof {
        assert(pv.skip(0) =~= pv);
    }
    let mut k: usize = 0;
    while k < config.config.group_priority_order.len()
        invariant
            cv == config@,
            !spec_is_basic_rgb_name(channel_name@),
            pv == strings_view(config.config.group_priority_order@),
            prefix@ == spec_prefix_of(channel_name@),
            0 <= k <= config.config.group_priority_order@.len(),
            spec_walk_priority(pv, cv.groups, prefix@) == spec_walk_priority(
                pv.skip(k as int),
                cv.groups,
                prefix@,
            ),
        decreases config.config.group_priority_order@.len() - k,
    {
        proof {
            assert(pv.skip(k as int)[0] == pv[k as int]);
        }
        let key = &config.config.group_priority_order[k];
        match find_group(&config.groups, key.as_str()) {
            Some(g) => {
                if group_matches(g, prefix) {
                    proof {
                        assert(pv[k as int] == config.config.group_priority_order@[
                            k as int
                        ]@);
                        assert(spec_lookup_group(cv.groups, pv[k as int]) == Some(g@));
                        assert(spec_walk_priority(pv.skip(k as int), cv.groups, prefix@)
                            == Some(g@.name));
                    }
                    return g.name.clone();
                }
            },
            None => {},
        }
        proof {
            assert(pv.skip(k as int).drop_first() =~= pv.skip(k as int + 1));
        }
        k = k + 1;
    }
    proof {
        assert(pv.skip(config.config.group_priority_order@.len() as int) =~= Seq::<
            Seq<char>,
        >::empty());
        assert(spec_walk_priority(pv, cv.groups, prefix@) is None);
    }
    match find_group(&config.groups, "scene_objects") {
        Some(g) => g.name.clone(),
        None => config.config.fallback_names.default_label.clone(),
    }
}

} // verus!
