//! The kinds of blocks and the textures of their faces.

use vstd::prelude::*;

use super::Direction;

verus! {

/// One kind of block as the configuration describes it.
#[derive(Debug, PartialEq, Eq)]
pub struct BlockConfig {
    pub id: u32,
    pub name: String,
    pub texture: String,
    pub top_texture: String,
    pub bottom_texture: String,
}

impl Clone for BlockConfig {
    fn clone(&self) -> (r: Self)
        ensures
            r == *self,
    {
        BlockConfig {
            id: self.id,
            name: self.name.clone(),
            texture: self.texture.clone(),
            top_texture: self.top_texture.clone(),
            bottom_texture: self.bottom_texture.clone(),
        }
    }
}

impl BlockConfig {
    /// The name of the texture on the face of this block that looks in the
    /// direction `dir`: one for the top, one for the bottom, one for the
    /// four sides.
    pub open spec fn face(self, dir: Direction) -> Seq<char> {
        match dir {
            Direction::PosY => self.top_texture@,
            Direction::NegY => self.bottom_texture@,
            _ => self.texture@,
        }
    }

    /// Air: the block with id 0, which has no textures.
    pub open spec fn is_air(self) -> bool {
        self.id == 0 && self.name@ == "air"@ && self.texture@.len() == 0 && self.top_texture@.len()
            == 0 && self.bottom_texture@.len() == 0
    }
}

/// `names`, and behind them `name` unless it is among them already.
pub open spec fn with_texture(names: Seq<Seq<char>>, name: Seq<char>) -> Seq<Seq<char>> {
    if names.contains(name) {
        names
    } else {
        names.push(name)
    }
}

/// The names of the textures of `blocks`, each once, in the order in which
/// they first appear: of each block the sides, then the top, then the
/// bottom.
pub open spec fn textures_of(blocks: Seq<BlockConfig>) -> Seq<Seq<char>>
    decreases blocks.len(),
{
    if blocks.len() == 0 {
        Seq::empty()
    } else {
        with_texture(
            with_texture(
                with_texture(textures_of(blocks.drop_last()), blocks.last().texture@),
                blocks.last().top_texture@,
            ),
            blocks.last().bottom_texture@,
        )
    }
}

/// The names of `textures`.
pub open spec fn names_of(textures: Seq<String>) -> Seq<Seq<char>> {
    Seq::new(textures.len(), |i: int| textures[i]@)
}

/// Most textures that can be told apart by a number of 16 bits.
pub const MAX_TEXTURES: usize = 65536;

/// Whether `name` is among `textures`.
fn position(textures: &Vec<String>, name: &String) -> (r: Option<usize>)
    ensures
        r is Some <==> names_of(textures@).contains(name@),
        r matches Some(i) ==> i < textures@.len() && textures@[i as int]@ == name@,
{
    let mut i: usize = 0;
    while i < textures.len()
        invariant
            i <= textures@.len(),
            forall|j: int| 0 <= j < i ==> (#[trigger] textures@[j])@ != name@,
        decreases textures@.len() - i,
    {
        if textures[i] == *name {
            assert(names_of(textures@)[i as int] == name@);
            return Some(i);
        }
        i = i + 1;
    }
    assert forall|j: int| 0 <= j < names_of(textures@).len() implies names_of(textures@)[j]
        != name@ by {
        assert(textures@[j]@ != name@);
    }
    None
}

/// Puts `name` behind `textures` unless it is among them already.
fn note(textures: &mut Vec<String>, name: &String)
    ensures
        names_of(final(textures)@) == with_texture(names_of(old(textures)@), name@),
{
    if position(textures, name).is_none() {
        textures.push(name.clone());
        assert(names_of(textures@) =~= names_of(old(textures)@).push(name@));
    }
}

/// The kinds of blocks, by block id, and the numbers of their textures.
#[derive(Debug)]
pub struct BlocksConfig {
    blocks: Vec<BlockConfig>,
    /// The names of the textures, each at the place of its number. A list
    /// that is searched from the front: Verus knows nothing of what a hash
    /// map keyed by strings holds.
    textures: Vec<String>,
}

impl BlocksConfig {
    /// The kinds of blocks, air first.
    pub closed spec fn spec_blocks(&self) -> Seq<BlockConfig> {
        self.blocks@
    }

    /// The names of the textures, each at the place of its number.
    pub closed spec fn texture_names(&self) -> Seq<Seq<char>> {
        names_of(self.textures@)
    }

    /// The textures are those of the blocks behind air, few enough to be
    /// numbered.
    pub open spec fn wf(&self) -> bool {
        &&& self.spec_blocks().len() > 0
        &&& self.texture_names() == textures_of(self.spec_blocks().skip(1))
        &&& self.texture_names().len() <= MAX_TEXTURES
    }

    /// The configuration of the given kinds of blocks: air goes in front of
    /// them, and their textures are numbered in the order in which they
    /// first appear. Given with it are the names of the textures, each at
    /// the place of its number. `None` where there are more textures than
    /// numbers.
    pub fn new(blocks: Vec<BlockConfig>) -> (r: Option<(Self, Vec<String>)>)
        ensures
            r is Some <==> textures_of(blocks@).len() <= MAX_TEXTURES,
            r matches Some((config, files)) ==> {
                &&& config.wf()
                &&& config.spec_blocks().len() == blocks@.len() + 1
                &&& config.spec_blocks()[0].is_air()
                &&& config.spec_blocks().skip(1) == blocks@
                &&& names_of(files@) == config.texture_names()
            },
    {
        let mut textures: Vec<String> = Vec::new();
        let mut i: usize = 0;
        assert(blocks@.take(0) =~= Seq::empty());
        assert(names_of(textures@) =~= Seq::empty());
        while i < blocks.len()
            invariant
                i <= blocks@.len(),
                names_of(textures@) == textures_of(blocks@.take(i as int)),
            decreases blocks@.len() - i,
        {
            proof {
                assert(blocks@.take(i + 1).drop_last() =~= blocks@.take(i as int));
                assert(blocks@.take(i + 1).last() == blocks@[i as int]);
            }
            note(&mut textures, &blocks[i].texture);
            note(&mut textures, &blocks[i].top_texture);
            note(&mut textures, &blocks[i].bottom_texture);
            i = i + 1;
        }
        assert(blocks@.take(blocks@.len() as int) =~= blocks@);
        if textures.len() > MAX_TEXTURES {
            return None;
        }
        let mut files: Vec<String> = Vec::with_capacity(textures.len());
        let mut k: usize = 0;
        while k < textures.len()
            invariant
                k <= textures@.len(),
                files@.len() == k,
                forall|j: int| 0 <= j < k ==> (#[trigger] files@[j])@ == textures@[j]@,
            decreases textures@.len() - k,
        {
            files.push(textures[k].clone());
            k = k + 1;
        }
        assert(names_of(files@) =~= names_of(textures@));
        let air = BlockConfig {
            id: 0,
            name: "air".to_string(),
            texture: String::new(),
            top_texture: String::new(),
            bottom_texture: String::new(),
        };
        let mut all: Vec<BlockConfig> = Vec::new();
        all.push(air);
        let ghost given = blocks@;
        let mut blocks = blocks;
        all.append(&mut blocks);
        assert(all@.skip(1) =~= given);
        Some((BlocksConfig { blocks: all, textures }, files))
    }

    /// The kinds of blocks, by block id.
    pub fn blocks(&self) -> (r: &Vec<BlockConfig>)
        ensures
            r@ == self.spec_blocks(),
    {
        &self.blocks
    }

    /// The number of the texture on the face of the block `block_type`
    /// that looks in the direction `dir`. Every block behind air has one;
    /// air has one only where its name for the face, the empty one, is the
    /// name of a texture of some other block.
    pub fn get_texture(&self, block_type: u8, dir: Direction) -> (r: u16)
        requires
            self.wf(),
            block_type < self.spec_blocks().len(),
            block_type == 0 ==> self.texture_names().contains(self.spec_blocks()[0].face(dir)),
        ensures
            r < self.texture_names().len(),
            self.texture_names()[r as int] == self.spec_blocks()[block_type as int].face(dir),
            forall|i: int|
                0 <= i < self.texture_names().len() && self.texture_names()[i]
                    == self.spec_blocks()[block_type as int].face(dir) ==> i == r,
    {
        let block = &self.blocks[block_type as usize];
        let texture_name = match dir {
            Direction::PosY => &block.top_texture,
            Direction::NegY => &block.bottom_texture,
            _ => &block.texture,
        };
        proof {
            if block_type > 0 {
                lemma_textures_complete(self.blocks@.skip(1), block_type - 1, dir);
            }
            lemma_textures_distinct(self.blocks@.skip(1));
        }
        let number = position(&self.textures, texture_name).unwrap();
        assert forall|i: int|
            0 <= i < self.texture_names().len() && self.texture_names()[i]
                == texture_name@ implies i == number by {
            assert(self.texture_names()[number as int] == texture_name@);
        }
        number as u16
    }
}

/// No name is among the textures of some blocks twice, so the number of a
/// texture says which texture it is.
pub proof fn lemma_textures_distinct(blocks: Seq<BlockConfig>)
    ensures
        textures_of(blocks).no_duplicates(),
    decreases blocks.len(),
{
    if blocks.len() > 0 {
        lemma_textures_distinct(blocks.drop_last());
    }
}

/// Every texture of every block is among the textures of the blocks.
pub proof fn lemma_textures_complete(blocks: Seq<BlockConfig>, i: int, dir: Direction)
    requires
        0 <= i < blocks.len(),
    ensures
        textures_of(blocks).contains(blocks[i].face(dir)),
    decreases blocks.len(),
{
    let before = textures_of(blocks.drop_last());
    let a = with_texture(before, blocks.last().texture@);
    let b = with_texture(a, blocks.last().top_texture@);
    let c = with_texture(b, blocks.last().bottom_texture@);
    lemma_with_texture(before, blocks.last().texture@);
    lemma_with_texture(a, blocks.last().top_texture@);
    lemma_with_texture(b, blocks.last().bottom_texture@);
    if i < blocks.len() - 1 {
        lemma_textures_complete(blocks.drop_last(), i, dir);
        assert(blocks.drop_last()[i] == blocks[i]);
    }
}

/// A name is among the textures once it has been put behind them, and so
/// is every name that was among them before.
pub proof fn lemma_with_texture(names: Seq<Seq<char>>, name: Seq<char>)
    ensures
        with_texture(names, name).contains(name),
        forall|other: Seq<char>|
            names.contains(other) ==> with_texture(names, name).contains(other),
{
    let after = with_texture(names, name);
    if !names.contains(name) {
        assert(after[names.len() as int] == name);
        assert forall|other: Seq<char>| names.contains(other) implies after.contains(other) by {
            let j = choose|j: int| 0 <= j < names.len() && names[j] == other;
            assert(after[j] == other);
        }
    }
}

} // verus!
