//! Listing the commit categories.
use vstd::prelude::*;

use crate::categories::{Category, CategoryModel};
use crate::config::{category_models, Config};
use crate::print::{lines_view, Line, LineModel};
use crate::text::{pad_right, pad_right_exec};
use vstd::string::StrSliceExecFns;

verus! {

/// The longest category name, in characters.
pub open spec fn longest_name(cs: Seq<CategoryModel>) -> nat
    decreases cs.len(),
{
    if cs.len() == 0 {
        0
    } else {
        let r = longest_name(cs.drop_last());
        if cs.last().name.len() > r {
            cs.last().name.len()
        } else {
            r
        }
    }
}

/// The listing: a header, then each category's name, padded to two
/// more than the longest name, and its description.
pub open spec fn categories_listing(cs: Seq<CategoryModel>) -> Seq<LineModel> {
    let w = longest_name(cs) + 2;
    let w = w as int;
    seq![LineModel::Blank, LineModel::Header("Commit Categories:"@), LineModel::Blank] + cs.map_values(
        |c: CategoryModel| LineModel::Entry(pad_right(c.name, w), c.description),
    ) + seq![LineModel::Blank]
}

/// Lists the commit categories.
pub fn show_categories(cfg: &Config) -> (r: Vec<Line>)
    requires
        forall|k: int| 0 <= k < cfg@.categories.len() ==> (#[trigger] cfg@.categories[k]).name.len() + 2 <= usize::MAX,
    ensures
        lines_view(r@) == categories_listing(cfg@.categories),
{
    let ghost cs = cfg@.categories;
    assert(cs == category_models(cfg.categories@));
    let mut w: usize = 0;
    let mut i: usize = 0;
    while i < cfg.categories.len()
        invariant
            i <= cfg.categories@.len(),
            cs == category_models(cfg.categories@),
            w == longest_name(cs.take(i as int)),
            w + 2 <= usize::MAX,
            forall|k: int| 0 <= k < cs.len() ==> (#[trigger] cs[k]).name.len() + 2 <= usize::MAX,
        decreases cfg.categories.len() - i,
    {
        proof {
            assert(cs.take(i as int + 1).drop_last() =~= cs.take(i as int));
            assert(cs[i as int] == cfg.categories@[i as int]@);
        }
        let n = cfg.categories[i].name.as_str().unicode_len();
        if n > w {
            w = n;
        }
        i = i + 1;
    }
    assert(cs.take(cs.len() as int) =~= cs);
    let width = w + 2;
    let mut v: Vec<Line> = Vec::new();
    v.push(Line::Blank);
    v.push(Line::Header("Commit Categories:".to_owned()));
    v.push(Line::Blank);
    let ghost head = lines_view(v@);
    let ghost entries = cs.map_values(|c: CategoryModel| LineModel::Entry(pad_right(c.name, longest_name(cs) + 2int), c.description));
    let mut j: usize = 0;
    while j < cfg.categories.len()
        invariant
            j <= cfg.categories@.len(),
            cs == category_models(cfg.categories@),
            width == longest_name(cs) + 2,
            entries == cs.map_values(|c: CategoryModel| LineModel::Entry(pad_right(c.name, longest_name(cs) + 2int), c.description)),
            lines_view(v@) == head + entries.take(j as int),
        decreases cfg.categories.len() - j,
    {
        let c = &cfg.categories[j];
        assert(cs[j as int] == c@);
        let ghost before = lines_view(v@);
        v.push(Line::Entry(pad_right_exec(c.name.as_str(), width), c.description.clone()));
        assert(lines_view(v@) =~= before.push(entries[j as int]));
        assert(entries.take(j as int + 1) =~= entries.take(j as int).push(entries[j as int]));
        j = j + 1;
    }
    assert(entries.take(cs.len() as int) =~= entries);
    let ghost mid = lines_view(v@);
    v.push(Line::Blank);
    assert(lines_view(v@) =~= mid.push(LineModel::Blank));
    assert(lines_view(v@) =~= categories_listing(cs));
    v
}

} // verus!
