//! Localised descriptions of a marketplace item, one type per language as
//! the marketplace lays them out.

use vstd::prelude::*;

verus! {

/// The English description of an item.
#[derive(Debug, Clone, PartialEq, Default)]
pub struct En {
    pub item_name: String,
    pub description: String,
    pub wiki_link: String,
    pub drop: Vec<Drop>,
}

/// A place where the item drops, in the English description.
#[derive(Debug, Clone, PartialEq, Default)]
pub struct Drop {
    pub name: String,
    pub link: String,
}

/// The Russian description of an item.
#[derive(Debug, Clone, PartialEq, Default)]
pub struct Ru {
    pub item_name: String,
    pub description: String,
    pub wiki_link: String,
    pub drop: Vec<Drop2>,
}

/// A place where the item drops, in the Russian description.
#[derive(Debug, Clone, PartialEq, Default)]
pub struct Drop2 {
    pub name: String,
    pub link: String,
}

/// The Korean description of an item.
#[derive(Debug, Clone, PartialEq, Default)]
pub struct Ko {
    pub item_name: String,
    pub description: String,
    pub wiki_link: String,
    pub drop: Vec<Drop3>,
}

/// A place where the item drops, in the Korean description.
#[derive(Debug, Clone, PartialEq, Default)]
pub struct Drop3 {
    pub name: String,
    pub link: String,
}

/// The French description of an item.
#[derive(Debug, Clone, PartialEq, Default)]
pub struct Fr {
    pub item_name: String,
    pub description: String,
    pub wiki_link: String,
    pub drop: Vec<Drop4>,
}

/// A place where the item drops, in the French description.
#[derive(Debug, Clone, PartialEq, Default)]
pub struct Drop4 {
    pub name: String,
    pub link: String,
}

/// The German description of an item.
#[derive(Debug, Clone, PartialEq, Default)]
pub struct De {
    pub item_name: String,
    pub description: String,
    pub wiki_link: String,
    pub drop: Vec<Drop5>,
}

/// A place where the item drops, in the German description.
#[derive(Debug, Clone, PartialEq, Default)]
pub struct Drop5 {
    pub name: String,
    pub link: String,
}

/// The Swedish description of an item.
#[derive(Debug, Clone, PartialEq, Default)]
pub struct Sv {
    pub item_name: String,
    pub description: String,
    pub wiki_link: String,
    pub drop: Vec<Drop6>,
}

/// A place where the item drops, in the Swedish description.
#[derive(Debug, Clone, PartialEq, Default)]
pub struct Drop6 {
    pub name: String,
    pub link: String,
}

/// The Traditional Chinese description of an item.
#[derive(Debug, Clone, PartialEq, Default)]
pub struct ZhHant {
    pub item_name: String,
    pub description: String,
    pub wiki_link: String,
    pub drop: Vec<Drop7>,
}

/// A place where the item drops, in the Traditional Chinese description.
#[derive(Debug, Clone, PartialEq, Default)]
pub struct Drop7 {
    pub name: String,
    pub link: String,
}

/// The Simplified Chinese description of an item.
#[derive(Debug, Clone, PartialEq, Default)]
pub struct ZhHans {
    pub item_name: String,
    pub description: String,
    pub wiki_link: String,
    pub drop: Vec<Drop8>,
}

/// A place where the item drops, in the Simplified Chinese description.
#[derive(Debug, Clone, PartialEq, Default)]
pub struct Drop8 {
    pub name: String,
    pub link: String,
}

/// The Portuguese description of an item.
#[derive(Debug, Clone, PartialEq, Default)]
pub struct Pt {
    pub item_name: String,
    pub description: String,
    pub wiki_link: String,
    pub drop: Vec<Drop9>,
}

/// A place where the item drops, in the Portuguese description.
#[derive(Debug, Clone, PartialEq, Default)]
pub struct Drop9 {
    pub name: String,
    pub link: String,
}

/// The Spanish description of an item.
#[derive(Debug, Clone, PartialEq, Default)]
pub struct Es {
    pub item_name: String,
    pub description: String,
    pub wiki_link: String,
    pub drop: Vec<Drop10>,
}

/// A place where the item drops, in the Spanish description.
#[derive(Debug, Clone, PartialEq, Default)]
pub struct Drop10 {
    pub name: String,
    pub link: String,
}

/// The Polish description of an item.
#[derive(Debug, Clone, PartialEq, Default)]
pub struct Pl {
    pub item_name: String,
    pub description: String,
    pub wiki_link: String,
    pub drop: Vec<Drop11>,
}

/// A place where the item drops, in the Polish description.
#[derive(Debug, Clone, PartialEq, Default)]
pub struct Drop11 {
    pub name: String,
    pub link: String,
}

} // verus!
