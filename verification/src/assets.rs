//! Asset specifications of the world: what bases, blocks, entities and
//! players exist and how the world is generated.
//!
//! The asset file refers to specifications by label; building [`Assets`]
//! numbers each list in file order and resolves every label to the number of
//! the first specification that carries it.

use vstd::prelude::*;

use crate::vector::IVec2;

verus! {

broadcast use vstd::string::to_string_from_display_ensures_for_str;

/// How an atlas entry is extended around its borders when mipmaps are
/// built.
#[derive(Clone, Copy, Debug, PartialEq, Eq)]
pub enum MipOption {
    Clamp,
    Repeat,
    Mirror,
}

/// The option that the asset file names `s`, if any: `"clamp"`,
/// `"repeat"` or `"mirror"`.
pub open spec fn mip_option_named(s: Seq<char>) -> Option<MipOption> {
    if s == "clamp"@ {
        Some(MipOption::Clamp)
    } else if s == "repeat"@ {
        Some(MipOption::Repeat)
    } else if s == "mirror"@ {
        Some(MipOption::Mirror)
    } else {
        None
    }
}

impl MipOption {
    /// Reads the option that the asset file names.
    pub fn parse(s: &String) -> (r: Option<MipOption>)
        ensures
            r == mip_option_named(s@),
    {
        if *s == "clamp".to_string() {
            Some(MipOption::Clamp)
        } else if *s == "repeat".to_string() {
            Some(MipOption::Repeat)
        } else if *s == "mirror".to_string() {
            Some(MipOption::Mirror)
        } else {
            None
        }
    }
}

/// A ground base specification.
#[derive(Clone, Debug)]
pub struct BaseSpec {
    pub id: usize,
    pub label: String,
    pub texture_path: String,
    pub texture_mip_option: MipOption,
}

/// A block specification (its drawing size lives with the renderer).
#[derive(Clone, Debug)]
pub struct BlockSpec {
    pub id: usize,
    pub label: String,
    pub internal_size: IVec2,
    pub z_along_y: bool,
    pub texture_path: String,
    pub texture_mip_option: MipOption,
}

/// An entity specification (its sizes live with the renderer).
#[derive(Clone, Debug)]
pub struct EntitySpec {
    pub id: usize,
    pub label: String,
    pub z_along_y: bool,
    pub texture_path: String,
    pub texture_mip_option: MipOption,
}

/// A world generation rule (the probabilities live with the generator's
/// caller).
#[derive(Clone, Copy, Debug, PartialEq, Eq)]
pub enum GenerationSpec {
    FillBase { id: usize, base_spec_id: usize },
    RandomBase { id: usize, base_spec_id: usize },
    RandomBlock { id: usize, block_spec_id: usize },
}

/// A player specification.
#[derive(Clone, Debug)]
pub struct PlayerSpec {
    pub id: usize,
    pub label: String,
    pub entity_spec_id: usize,
    pub texture_path: String,
}

/// Every specification of the world.
#[derive(Clone, Debug)]
pub struct Assets {
    pub base_specs: Vec<BaseSpec>,
    pub entity_specs: Vec<EntitySpec>,
    pub block_specs: Vec<BlockSpec>,
    pub generation_specs: Vec<GenerationSpec>,
    pub player_specs: Vec<PlayerSpec>,
}

/// A base specification as the asset file writes it.
#[derive(Clone, Debug)]
pub struct BaseSpecIn {
    pub label: String,
    pub texture_path: String,
    pub texture_mip_option: String,
}

/// A block specification as the asset file writes it.
#[derive(Clone, Debug)]
pub struct BlockSpecIn {
    pub label: String,
    pub internal_size: IVec2,
    pub z_along_y: bool,
    pub texture_path: String,
    pub texture_mip_option: String,
}

/// An entity specification as the asset file writes it.
#[derive(Clone, Debug)]
pub struct EntitySpecIn {
    pub label: String,
    pub z_along_y: bool,
    pub texture_path: String,
    pub texture_mip_option: String,
}

/// A generation rule as the asset file writes it.
#[derive(Clone, Debug)]
pub enum GenerationSpecIn {
    FillBase { base_spec_label: String },
    RandomBase { base_spec_label: String },
    RandomBlock { block_spec_label: String },
}

/// A player specification as the asset file writes it.
#[derive(Clone, Debug)]
pub struct PlayerSpecIn {
    pub label: String,
    pub entity_spec_label: String,
    pub texture_path: String,
}

/// The asset file's contents.
#[derive(Clone, Debug)]
pub struct AssetsIn {
    pub base_specs: Vec<BaseSpecIn>,
    pub block_specs: Vec<BlockSpecIn>,
    pub entity_specs: Vec<EntitySpecIn>,
    pub generation_specs: Vec<GenerationSpecIn>,
    pub player_specs: Vec<PlayerSpecIn>,
}

/// Whether `i` is the first index of `labels` that holds `label`.
pub open spec fn first_label(labels: Seq<Seq<char>>, label: Seq<char>, i: int) -> bool {
    &&& 0 <= i < labels.len()
    &&& labels[i] == label
    &&& forall|j: int| 0 <= j < i ==> labels[j] != label
}

/// Whether some entry of `labels` holds `label`.
pub open spec fn has_label(labels: Seq<Seq<char>>, label: Seq<char>) -> bool {
    exists|i: int| 0 <= i < labels.len() && labels[i] == label
}

pub open spec fn base_labels(input: AssetsIn) -> Seq<Seq<char>> {
    input.base_specs@.map_values(|s: BaseSpecIn| s.label@)
}

pub open spec fn block_labels(input: AssetsIn) -> Seq<Seq<char>> {
    input.block_specs@.map_values(|s: BlockSpecIn| s.label@)
}

pub open spec fn entity_labels(input: AssetsIn) -> Seq<Seq<char>> {
    input.entity_specs@.map_values(|s: EntitySpecIn| s.label@)
}

/// The label of the specification that a generation rule refers to, and
/// whether that is a base (`true`) or a block (`false`) specification.
pub open spec fn generation_target(g: GenerationSpecIn) -> (Seq<char>, bool) {
    match g {
        GenerationSpecIn::FillBase { base_spec_label } => (base_spec_label@, true),
        GenerationSpecIn::RandomBase { base_spec_label } => (base_spec_label@, true),
        GenerationSpecIn::RandomBlock { block_spec_label } => (block_spec_label@, false),
    }
}

/// Whether the asset file can be read: every mip option is named correctly
/// and every label that a rule or a player refers to exists.
pub open spec fn assets_in_ok(input: AssetsIn) -> bool {
    &&& forall|i: int|
        0 <= i < input.base_specs@.len() ==> mip_option_named(
            #[trigger] input.base_specs@[i].texture_mip_option@,
        ) is Some
    &&& forall|i: int|
        0 <= i < input.block_specs@.len() ==> mip_option_named(
            #[trigger] input.block_specs@[i].texture_mip_option@,
        ) is Some
    &&& forall|i: int|
        0 <= i < input.entity_specs@.len() ==> mip_option_named(
            #[trigger] input.entity_specs@[i].texture_mip_option@,
        ) is Some
    &&& forall|i: int|
        0 <= i < input.generation_specs@.len() ==> {
            let t = generation_target(#[trigger] input.generation_specs@[i]);
            if t.1 {
                has_label(base_labels(input), t.0)
            } else {
                has_label(block_labels(input), t.0)
            }
        }
    &&& forall|i: int|
        0 <= i < input.player_specs@.len() ==> has_label(
            entity_labels(input),
            (#[trigger] input.player_specs@[i]).entity_spec_label@,
        )
}

/// The index of the first specification of `labels` named `label`.
fn find_label(labels: &Vec<String>, label: &String) -> (r: usize)
    requires
        has_label(labels@.map_values(|s: String| s@), label@),
    ensures
        first_label(labels@.map_values(|s: String| s@), label@, r as int),
{
    let ghost ls = labels@.map_values(|s: String| s@);
    let mut i: usize = 0;
    while i < labels.len()
        invariant
            ls == labels@.map_values(|s: String| s@),
            has_label(ls, label@),
            i <= labels@.len(),
            forall|j: int| 0 <= j < i ==> ls[j] != label@,
        decreases labels@.len() - i,
    {
        if labels[i] == *label {
            return i;
        }
        i = i + 1;
    }
    proof {
        let k = choose|k: int| 0 <= k < ls.len() && ls[k] == label@;
        assert(ls[k] != label@);
    }
    0
}

/// The labels of the specifications, in order.
fn base_label_list(specs: &Vec<BaseSpecIn>) -> (r: Vec<String>)
    ensures
        r@.map_values(|s: String| s@) == specs@.map_values(|s: BaseSpecIn| s.label@),
{
    let mut out: Vec<String> = Vec::new();
    let mut i: usize = 0;
    while i < specs.len()
        invariant
            i <= specs@.len(),
            out@.len() == i,
            forall|j: int| 0 <= j < i ==> (#[trigger] out@[j])@ == specs@[j].label@,
        decreases specs@.len() - i,
    {
        out.push(specs[i].label.clone());
        i = i + 1;
    }
    assert(out@.map_values(|s: String| s@) =~= specs@.map_values(|s: BaseSpecIn| s.label@));
    out
}

/// The labels of the specifications, in order.
fn block_label_list(specs: &Vec<BlockSpecIn>) -> (r: Vec<String>)
    ensures
        r@.map_values(|s: String| s@) == specs@.map_values(|s: BlockSpecIn| s.label@),
{
    let mut out: Vec<String> = Vec::new();
    let mut i: usize = 0;
    while i < specs.len()
        invariant
            i <= specs@.len(),
            out@.len() == i,
            forall|j: int| 0 <= j < i ==> (#[trigger] out@[j])@ == specs@[j].label@,
        decreases specs@.len() - i,
    {
        out.push(specs[i].label.clone());
        i = i + 1;
    }
    assert(out@.map_values(|s: String| s@) =~= specs@.map_values(|s: BlockSpecIn| s.label@));
    out
}

/// The labels of the specifications, in order.
fn entity_label_list(specs: &Vec<EntitySpecIn>) -> (r: Vec<String>)
    ensures
        r@.map_values(|s: String| s@) == specs@.map_values(|s: EntitySpecIn| s.label@),
{
    let mut out: Vec<String> = Vec::new();
    let mut i: usize = 0;
    while i < specs.len()
        invariant
            i <= specs@.len(),
            out@.len() == i,
            forall|j: int| 0 <= j < i ==> (#[trigger] out@[j])@ == specs@[j].label@,
        decreases specs@.len() - i,
    {
        out.push(specs[i].label.clone());
        i = i + 1;
    }
    assert(out@.map_values(|s: String| s@) =~= specs@.map_values(|s: EntitySpecIn| s.label@));
    out
}

/// Whether some label of the list equals `label`.
fn contains_label(labels: &Vec<String>, label: &String) -> (r: bool)
    ensures
        r == has_label(labels@.map_values(|s: String| s@), label@),
{
    let ghost ls = labels@.map_values(|s: String| s@);
    let mut i: usize = 0;
    while i < labels.len()
        invariant
            ls == labels@.map_values(|s: String| s@),
            i <= labels@.len(),
            forall|j: int| 0 <= j < i ==> ls[j] != label@,
        decreases labels@.len() - i,
    {
        if labels[i] == *label {
            assert(ls[i as int] == label@);
            return true;
        }
        i = i + 1;
    }
    false
}

/// The specification that the rule `g` of the file resolves to.
pub open spec fn resolved_generation(input: AssetsIn, id: int, g: GenerationSpecIn, r: GenerationSpec) -> bool {
    match g {
        GenerationSpecIn::FillBase { base_spec_label } => r matches GenerationSpec::FillBase {
            id: rid,
            base_spec_id,
        } && rid == id && first_label(base_labels(input), base_spec_label@, base_spec_id as int),
        GenerationSpecIn::RandomBase { base_spec_label } => r matches GenerationSpec::RandomBase {
            id: rid,
            base_spec_id,
        } && rid == id && first_label(base_labels(input), base_spec_label@, base_spec_id as int),
        GenerationSpecIn::RandomBlock { block_spec_label } => r matches GenerationSpec::RandomBlock {
            id: rid,
            block_spec_id,
        } && rid == id && first_label(block_labels(input), block_spec_label@, block_spec_id as int),
    }
}

/// What [`Assets::new`] builds from the file: the lists in file order, each
/// specification numbered by its position, options read and labels
/// resolved to the first specification that carries them.
pub open spec fn assets_from(input: AssetsIn, a: Assets) -> bool {
    &&& a.base_specs@.len() == input.base_specs@.len()
    &&& forall|i: int|
        #![trigger a.base_specs@[i]]
        0 <= i < a.base_specs@.len() ==> {
            let (o, n) = (a.base_specs@[i], input.base_specs@[i]);
            &&& o.id == i
            &&& o.label@ == n.label@
            &&& o.texture_path@ == n.texture_path@
            &&& Some(o.texture_mip_option) == mip_option_named(n.texture_mip_option@)
        }
    &&& a.block_specs@.len() == input.block_specs@.len()
    &&& forall|i: int|
        #![trigger a.block_specs@[i]]
        0 <= i < a.block_specs@.len() ==> {
            let (o, n) = (a.block_specs@[i], input.block_specs@[i]);
            &&& o.id == i
            &&& o.label@ == n.label@
            &&& o.internal_size == n.internal_size
            &&& o.z_along_y == n.z_along_y
            &&& o.texture_path@ == n.texture_path@
            &&& Some(o.texture_mip_option) == mip_option_named(n.texture_mip_option@)
        }
    &&& a.entity_specs@.len() == input.entity_specs@.len()
    &&& forall|i: int|
        #![trigger a.entity_specs@[i]]
        0 <= i < a.entity_specs@.len() ==> {
            let (o, n) = (a.entity_specs@[i], input.entity_specs@[i]);
            &&& o.id == i
            &&& o.label@ == n.label@
            &&& o.z_along_y == n.z_along_y
            &&& o.texture_path@ == n.texture_path@
            &&& Some(o.texture_mip_option) == mip_option_named(n.texture_mip_option@)
        }
    &&& a.generation_specs@.len() == input.generation_specs@.len()
    &&& forall|i: int|
        #![trigger a.generation_specs@[i]]
        0 <= i < a.generation_specs@.len() ==> resolved_generation(
            input,
            i,
            input.generation_specs@[i],
            a.generation_specs@[i],
        )
    &&& a.player_specs@.len() == input.player_specs@.len()
    &&& forall|i: int|
        #![trigger a.player_specs@[i]]
        0 <= i < a.player_specs@.len() ==> {
            let (o, n) = (a.player_specs@[i], input.player_specs@[i]);
            &&& o.id == i
            &&& o.label@ == n.label@
            &&& o.texture_path@ == n.texture_path@
            &&& first_label(entity_labels(input), n.entity_spec_label@, o.entity_spec_id as int)
        }
}

impl AssetsIn {
    /// Whether [`Assets::new`] can read these contents: every mip option is
    /// named correctly and every referenced label exists.
    pub fn is_valid(&self) -> (r: bool)
        ensures
            r == assets_in_ok(*self),
    {
        let base_names = base_label_list(&self.base_specs);
        let block_names = block_label_list(&self.block_specs);
        let entity_names = entity_label_list(&self.entity_specs);
        let mut i: usize = 0;
        while i < self.base_specs.len()
            invariant
                i <= self.base_specs@.len(),
                forall|j: int|
                    0 <= j < i ==> mip_option_named(
                        #[trigger] self.base_specs@[j].texture_mip_option@,
                    ) is Some,
            decreases self.base_specs@.len() - i,
        {
            if MipOption::parse(&self.base_specs[i].texture_mip_option).is_none() {
                return false;
            }
            i = i + 1;
        }
        let mut i: usize = 0;
        while i < self.block_specs.len()
            invariant
                i <= self.block_specs@.len(),
                forall|j: int|
                    0 <= j < i ==> mip_option_named(
                        #[trigger] self.block_specs@[j].texture_mip_option@,
                    ) is Some,
            decreases self.block_specs@.len() - i,
        {
            if MipOption::parse(&self.block_specs[i].texture_mip_option).is_none() {
                return false;
            }
            i = i + 1;
        }
        let mut i: usize = 0;
        while i < self.entity_specs.len()
            invariant
                i <= self.entity_specs@.len(),
                forall|j: int|
                    0 <= j < i ==> mip_option_named(
                        #[trigger] self.entity_specs@[j].texture_mip_option@,
                    ) is Some,
            decreases self.entity_specs@.len() - i,
        {
            if MipOption::parse(&self.entity_specs[i].texture_mip_option).is_none() {
                return false;
            }
            i = i + 1;
        }
        let mut i: usize = 0;
        while i < self.generation_specs.len()
            invariant
                i <= self.generation_specs@.len(),
                base_names@.map_values(|s: String| s@) == base_labels(*self),
                block_names@.map_values(|s: String| s@) == block_labels(*self),
                forall|j: int|
                    0 <= j < i ==> {
                        let t = generation_target(#[trigger] self.generation_specs@[j]);
                        if t.1 {
                            has_label(base_labels(*self), t.0)
                        } else {
                            has_label(block_labels(*self), t.0)
                        }
                    },
            decreases self.generation_specs@.len() - i,
        {
            let ok = match &self.generation_specs[i] {
                GenerationSpecIn::FillBase { base_spec_label } => contains_label(
                    &base_names,
                    base_spec_label,
                ),
                GenerationSpecIn::RandomBase { base_spec_label } => contains_label(
                    &base_names,
                    base_spec_label,
                ),
                GenerationSpecIn::RandomBlock { block_spec_label } => contains_label(
                    &block_names,
                    block_spec_label,
                ),
            };
            if !ok {
                return false;
            }
            i = i + 1;
        }
        let mut i: usize = 0;
        while i < self.player_specs.len()
            invariant
                i <= self.player_specs@.len(),
                entity_names@.map_values(|s: String| s@) == entity_labels(*self),
                forall|j: int|
                    0 <= j < i ==> has_label(
                        entity_labels(*self),
                        (#[trigger] self.player_specs@[j]).entity_spec_label@,
                    ),
            decreases self.player_specs@.len() - i,
        {
            if !contains_label(&entity_names, &self.player_specs[i].entity_spec_label) {
                return false;
            }
            i = i + 1;
        }
        true
    }
}

impl Assets {
    /// Builds the specifications from the asset file's contents.
    pub fn new(input: &AssetsIn) -> (r: Assets)
        requires
            assets_in_ok(*input),
        ensures
            assets_from(*input, r),
    {
        let base_names = base_label_list(&input.base_specs);
        let block_names = block_label_list(&input.block_specs);
        let entity_names = entity_label_list(&input.entity_specs);

        let mut base_specs: Vec<BaseSpec> = Vec::new();
        let mut i: usize = 0;
        while i < input.base_specs.len()
            invariant
                assets_in_ok(*input),
                i <= input.base_specs@.len(),
                base_specs@.len() == i,
                forall|j: int|
                    #![trigger base_specs@[j]]
                    0 <= j < i ==> {
                        let (o, n) = (base_specs@[j], input.base_specs@[j]);
                        &&& o.id == j
                        &&& o.label@ == n.label@
                        &&& o.texture_path@ == n.texture_path@
                        &&& Some(o.texture_mip_option) == mip_option_named(n.texture_mip_option@)
                    },
            decreases input.base_specs@.len() - i,
        {
            let n = &input.base_specs[i];
            let ghost gi = i as int;
            assert(mip_option_named(input.base_specs@[gi].texture_mip_option@) is Some);
            let mip = MipOption::parse(&n.texture_mip_option).unwrap();
            base_specs.push(
                BaseSpec {
                    id: i,
                    label: n.label.clone(),
                    texture_path: n.texture_path.clone(),
                    texture_mip_option: mip,
                },
            );
            i = i + 1;
        }

        let mut block_specs: Vec<BlockSpec> = Vec::new();
        let mut i: usize = 0;
        while i < input.block_specs.len()
            invariant
                assets_in_ok(*input),
                i <= input.block_specs@.len(),
                block_specs@.len() == i,
                forall|j: int|
                    #![trigger block_specs@[j]]
                    0 <= j < i ==> {
                        let (o, n) = (block_specs@[j], input.block_specs@[j]);
                        &&& o.id == j
                        &&& o.label@ == n.label@
                        &&& o.internal_size == n.internal_size
                        &&& o.z_along_y == n.z_along_y
                        &&& o.texture_path@ == n.texture_path@
                        &&& Some(o.texture_mip_option) == mip_option_named(n.texture_mip_option@)
                    },
            decreases input.block_specs@.len() - i,
        {
            let n = &input.block_specs[i];
            let ghost gi = i as int;
            assert(mip_option_named(input.block_specs@[gi].texture_mip_option@) is Some);
            let mip = MipOption::parse(&n.texture_mip_option).unwrap();
            block_specs.push(
                BlockSpec {
                    id: i,
                    label: n.label.clone(),
                    internal_size: n.internal_size,
                    z_along_y: n.z_along_y,
                    texture_path: n.texture_path.clone(),
                    texture_mip_option: mip,
                },
            );
            i = i + 1;
        }

        let mut entity_specs: Vec<EntitySpec> = Vec::new();
        let mut i: usize = 0;
        while i < input.entity_specs.len()
            invariant
                assets_in_ok(*input),
                i <= input.entity_specs@.len(),
                entity_specs@.len() == i,
                forall|j: int|
                    #![trigger entity_specs@[j]]
                    0 <= j < i ==> {
                        let (o, n) = (entity_specs@[j], input.entity_specs@[j]);
                        &&& o.id == j
                        &&& o.label@ == n.label@
                        &&& o.z_along_y == n.z_along_y
                        &&& o.texture_path@ == n.texture_path@
                        &&& Some(o.texture_mip_option) == mip_option_named(n.texture_mip_option@)
                    },
            decreases input.entity_specs@.len() - i,
        {
            let n = &input.entity_specs[i];
            let ghost gi = i as int;
            assert(mip_option_named(input.entity_specs@[gi].texture_mip_option@) is Some);
            let mip = MipOption::parse(&n.texture_mip_option).unwrap();
            entity_specs.push(
                EntitySpec {
                    id: i,
                    label: n.label.clone(),
                    z_along_y: n.z_along_y,
                    texture_path: n.texture_path.clone(),
                    texture_mip_option: mip,
                },
            );
            i = i + 1;
        }

        let mut generation_specs: Vec<GenerationSpec> = Vec::new();
        let mut i: usize = 0;
        while i < input.generation_specs.len()
            invariant
                assets_in_ok(*input),
                base_names@.map_values(|s: String| s@) == base_labels(*input),
                block_names@.map_values(|s: String| s@) == block_labels(*input),
                i <= input.generation_specs@.len(),
                generation_specs@.len() == i,
                forall|j: int|
                    #![trigger generation_specs@[j]]
                    0 <= j < i ==> resolved_generation(
                        *input,
                        j,
                        input.generation_specs@[j],
                        generation_specs@[j],
                    ),
            decreases input.generation_specs@.len() - i,
        {
            let ghost gi = i as int;
            let g = &input.generation_specs[i];
            assert(generation_target(input.generation_specs@[gi]) == generation_target(*g));
            let spec = match g {
                GenerationSpecIn::FillBase { base_spec_label } => {
                    let base_spec_id = find_label(&base_names, base_spec_label);
                    GenerationSpec::FillBase { id: i, base_spec_id }
                },
                GenerationSpecIn::RandomBase { base_spec_label } => {
                    let base_spec_id = find_label(&base_names, base_spec_label);
                    GenerationSpec::RandomBase { id: i, base_spec_id }
                },
                GenerationSpecIn::RandomBlock { block_spec_label } => {
                    let block_spec_id = find_label(&block_names, block_spec_label);
                    GenerationSpec::RandomBlock { id: i, block_spec_id }
                },
            };
            generation_specs.push(spec);
            i = i + 1;
        }

        let mut player_specs: Vec<PlayerSpec> = Vec::new();
        let mut i: usize = 0;
        while i < input.player_specs.len()
            invariant
                assets_in_ok(*input),
                entity_names@.map_values(|s: String| s@) == entity_labels(*input),
                i <= input.player_specs@.len(),
                player_specs@.len() == i,
                forall|j: int|
                    #![trigger player_specs@[j]]
                    0 <= j < i ==> {
                        let (o, n) = (player_specs@[j], input.player_specs@[j]);
                        &&& o.id == j
                        &&& o.label@ == n.label@
                        &&& o.texture_path@ == n.texture_path@
                        &&& first_label(
                            entity_labels(*input),
                            n.entity_spec_label@,
                            o.entity_spec_id as int,
                        )
                    },
            decreases input.player_specs@.len() - i,
        {
            let n = &input.player_specs[i];
            let ghost gi = i as int;
            assert(has_label(entity_labels(*input), input.player_specs@[gi].entity_spec_label@));
            let entity_spec_id = find_label(&entity_names, &n.entity_spec_label);
            player_specs.push(
                PlayerSpec {
                    id: i,
                    label: n.label.clone(),
                    entity_spec_id,
                    texture_path: n.texture_path.clone(),
                },
            );
            i = i + 1;
        }

        Assets { base_specs, entity_specs, block_specs, generation_specs, player_specs }
    }
}

} // verus!
