//! Commit categories and the built-in defaults.
use vstd::prelude::*;

verus! {

/// A commit category as the configuration gives it.
#[derive(Debug)]
pub struct Category {
    pub name: String,
    pub description: String,
    pub emoji: String,
}

/// The mathematical value of a category.
pub struct CategoryModel {
    pub name: Seq<char>,
    pub description: Seq<char>,
    pub emoji: Seq<char>,
}

impl View for Category {
    type V = CategoryModel;

    open spec fn view(&self) -> CategoryModel {
        CategoryModel { name: self.name@, description: self.description@, emoji: self.emoji@ }
    }
}

impl Category {
    /// A copy of this category.
    pub fn duplicate(&self) -> (r: Category)
        ensures
            r@ == self@,
    {
        Category {
            name: self.name.clone(),
            description: self.description.clone(),
            emoji: self.emoji.clone(),
        }
    }
}

/// Compile-time category definition (for the built-in defaults).
pub struct StaticCategory {
    pub name: &'static str,
    pub description: &'static str,
}

/// Names and descriptions of the built-in categories, in order.
pub open spec fn default_category_specs() -> Seq<(Seq<char>, Seq<char>)> {
    seq![
        ("feat"@, "Add a new feature"@),
        ("fix"@, "Fix a bug"@),
        ("docs"@, "Documentation changes"@),
        ("style"@, "Code style / formatting"@),
        ("refactor"@, "Refactor code"@),
        ("perf"@, "Performance improvement"@),
        ("test"@, "Add or update tests"@),
        ("build"@, "Build system changes"@),
        ("ci"@, "CI/CD changes"@),
        ("chore"@, "Maintenance / chores"@),
        ("revert"@, "Revert a commit"@),
        ("wip"@, "Work in progress"@),
        ("none"@, "No category prefix"@),
    ]
}

/// Built-in default categories (used when no config overrides them).
pub fn default_categories() -> (r: Vec<StaticCategory>)
    ensures
        r@.len() == default_category_specs().len(),
        forall|i: int|
            0 <= i < r@.len() ==> (#[trigger] r@[i].name@, r@[i].description@)
                == default_category_specs()[i],
{
    let r = vec![
        StaticCategory { name: "feat", description: "Add a new feature" },
        StaticCategory { name: "fix", description: "Fix a bug" },
        StaticCategory { name: "docs", description: "Documentation changes" },
        StaticCategory { name: "style", description: "Code style / formatting" },
        StaticCategory { name: "refactor", description: "Refactor code" },
        StaticCategory { name: "perf", description: "Performance improvement" },
        StaticCategory { name: "test", description: "Add or update tests" },
        StaticCategory { name: "build", description: "Build system changes" },
        StaticCategory { name: "ci", description: "CI/CD changes" },
        StaticCategory { name: "chore", description: "Maintenance / chores" },
        StaticCategory { name: "revert", description: "Revert a commit" },
        StaticCategory { name: "wip", description: "Work in progress" },
        StaticCategory { name: "none", description: "No category prefix" },
    ];
    r
}

} // verus!
