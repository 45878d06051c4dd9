use vstd::prelude::*;

use crate::config::{Config, ConfigModel};
use crate::sql::{ranked_duplicates_query, ranked_query_spec};
use crate::text::texts_of;

verus! {

/// A stage of a run on the working copy of the database.
#[derive(PartialEq, Eq, Structural, Clone, Copy, Debug)]
pub enum Step {
    /// Remove the filenames that the comparison database also holds.
    CompareDatabases,
    /// Remove all but one record of each duplicated filename.
    RemoveDuplicateFilenames,
    /// Remove all but one record of each group of filenames that differ only by numbered or
    /// `M` parts before the extension.
    DeepDive,
    /// Remove the filenames that carry a processing tag.
    PruneTags,
    /// Compact the working copy.
    Vacuum,
    /// Write the database of the removed records.
    CreateDuplicatesDatabase,
    /// Copy the working copy over the source database and delete it.
    ReplaceSource,
}

/// The removal stages that the settings ask for, in the order they run.
pub open spec fn removal_steps_spec(c: ConfigModel) -> Seq<Step> {
    (if c.compare_db is Some {
        seq![Step::CompareDatabases]
    } else {
        Seq::empty()
    }) + (if c.filename_check {
        seq![Step::RemoveDuplicateFilenames]
    } else {
        Seq::empty()
    }) + (if c.deep_dive {
        seq![Step::DeepDive]
    } else {
        Seq::empty()
    }) + (if c.prune_tags {
        seq![Step::PruneTags]
    } else {
        Seq::empty()
    })
}

/// The stages that follow the removals, once `removed` records were removed in all.
pub open spec fn finishing_steps_spec(c: ConfigModel, removed: nat) -> Seq<Step> {
    (if removed > 0 {
        seq![Step::Vacuum]
    } else {
        Seq::empty()
    }) + (if c.duplicate_db {
        seq![Step::CreateDuplicatesDatabase]
    } else {
        Seq::empty()
    }) + (if !c.safe {
        seq![Step::ReplaceSource]
    } else {
        Seq::empty()
    })
}

/// The removal stages of a run with the settings `cfg`.
pub fn removal_steps(cfg: &Config) -> (steps: Vec<Step>)
    ensures
        steps@ == removal_steps_spec(cfg@),
{
    let mut steps: Vec<Step> = Vec::new();
    if cfg.compare_db.is_some() {
        steps.push(Step::CompareDatabases);
    }
    if cfg.filename_check {
        steps.push(Step::RemoveDuplicateFilenames);
    }
    if cfg.deep_dive {
        steps.push(Step::DeepDive);
    }
    if cfg.prune_tags {
        steps.push(Step::PruneTags);
    }
    assert(steps@ =~= removal_steps_spec(cfg@));
    steps
}

/// The stages that close a run with the settings `cfg` after `removed` records were removed.
pub fn finishing_steps(cfg: &Config, removed: usize) -> (steps: Vec<Step>)
    ensures
        steps@ == finishing_steps_spec(cfg@, removed as nat),
{
    let mut steps: Vec<Step> = Vec::new();
    if removed > 0 {
        steps.push(Step::Vacuum);
    }
    if cfg.duplicate_db {
        steps.push(Step::CreateDuplicatesDatabase);
    }
    if !cfg.safe {
        steps.push(Step::ReplaceSource);
    }
    assert(steps@ =~= finishing_steps_spec(cfg@, removed as nat));
    steps
}

/// The query that finds the rows the duplicate filename search removes, ranking each
/// filename's rows by `order`: within the values of the group column where one is set, and
/// there leaving out the rows with a NULL or empty group value unless `--group-null` asked to
/// group them together.
pub fn duplicate_search_query(cfg: &Config, order: &[String]) -> (q: String)
    ensures
        q@ == ranked_query_spec(texts_of(order@), cfg@.group_sort, !cfg.group_null),
{
    ranked_duplicates_query(order, cfg.group_sort.as_ref(), !cfg.group_null)
}

/// The source database is written only by a run that was told it is unsafe, and then only
/// at the very end, after every other stage.
pub proof fn law_source_is_replaced_only_when_unsafe(c: ConfigModel, removed: nat)
    ensures
        finishing_steps_spec(c, removed).contains(Step::ReplaceSource) <==> !c.safe,
        !removal_steps_spec(c).contains(Step::ReplaceSource),
        !c.safe ==> finishing_steps_spec(c, removed).last() == Step::ReplaceSource,
{
    let f = finishing_steps_spec(c, removed);
    if f.contains(Step::ReplaceSource) {
        let i = choose|i: int| 0 <= i < f.len() && f[i] == Step::ReplaceSource;
        if c.safe {
            assert(f =~= (if removed > 0 {
                seq![Step::Vacuum]
            } else {
                Seq::empty()
            }) + (if c.duplicate_db {
                seq![Step::CreateDuplicatesDatabase]
            } else {
                Seq::empty()
            }));
        }
    }
    if !c.safe {
        assert(f[f.len() - 1] == Step::ReplaceSource);
    }
    let r = removal_steps_spec(c);
    if r.contains(Step::ReplaceSource) {
        let i = choose|i: int| 0 <= i < r.len() && r[i] == Step::ReplaceSource;
    }
}

/// The working copy is compacted exactly when a removal stage removed something.
pub proof fn law_vacuum_only_after_removals(c: ConfigModel, removed: nat)
    ensures
        finishing_steps_spec(c, removed).contains(Step::Vacuum) <==> removed > 0,
{
    let f = finishing_steps_spec(c, removed);
    if removed > 0 {
        assert(f[0] == Step::Vacuum);
    }
    if f.contains(Step::Vacuum) {
        let i = choose|i: int| 0 <= i < f.len() && f[i] == Step::Vacuum;
    }
}

/// Each removal stage runs exactly when its setting asks for it, whatever the other settings:
/// the comparison when a comparison database is set, the duplicate filename search when the
/// filename check is on, the deep dive when it is asked for and the tag pruning when it is.
/// No other stage is a removal stage, none runs twice, and they run in that order.
#[verifier::rlimit(40)]
pub proof fn law_each_removal_stage_runs_when_asked(c: ConfigModel)
    ensures
        removal_steps_spec(c).contains(Step::CompareDatabases) <==> c.compare_db is Some,
        removal_steps_spec(c).contains(Step::RemoveDuplicateFilenames) <==> c.filename_check,
        removal_steps_spec(c).contains(Step::DeepDive) <==> c.deep_dive,
        removal_steps_spec(c).contains(Step::PruneTags) <==> c.prune_tags,
        removal_steps_spec(c).len() == (if c.compare_db is Some { 1int } else { 0int }) + (if c.filename_check {
            1int
        } else {
            0int
        }) + (if c.deep_dive { 1int } else { 0int }) + (if c.prune_tags { 1int } else { 0int }),
        removal_steps_spec(c).no_duplicates(),
        c.compare_db is Some ==> removal_steps_spec(c)[0] == Step::CompareDatabases,
        c.prune_tags ==> removal_steps_spec(c).last() == Step::PruneTags,
{
    let s = removal_steps_spec(c);
    if c.compare_db is Some {
        if c.filename_check {
            if c.deep_dive {
                if c.prune_tags {
                    assert(s =~= seq![Step::CompareDatabases, Step::RemoveDuplicateFilenames, Step::DeepDive, Step::PruneTags]);
                    assert(s[0] == Step::CompareDatabases);
                    assert(s[1] == Step::RemoveDuplicateFilenames);
                    assert(s[2] == Step::DeepDive);
                    assert(s[3] == Step::PruneTags);
                } else {
                    assert(s =~= seq![Step::CompareDatabases, Step::RemoveDuplicateFilenames, Step::DeepDive]);
                    assert(s[0] == Step::CompareDatabases);
                    assert(s[1] == Step::RemoveDuplicateFilenames);
                    assert(s[2] == Step::DeepDive);
                    assert(!s.contains(Step::PruneTags)) by {
                        if s.contains(Step::PruneTags) {
                            let i = choose|i: int| 0 <= i < s.len() && s[i] == Step::PruneTags;
                        }
                    }
                }
            } else {
                if c.prune_tags {
                    assert(s =~= seq![Step::CompareDatabases, Step::RemoveDuplicateFilenames, Step::PruneTags]);
                    assert(s[0] == Step::CompareDatabases);
                    assert(s[1] == Step::RemoveDuplicateFilenames);
                    assert(!s.contains(Step::DeepDive)) by {
                        if s.contains(Step::DeepDive) {
                            let i = choose|i: int| 0 <= i < s.len() && s[i] == Step::DeepDive;
                        }
                    }
                    assert(s[2] == Step::PruneTags);
                } else {
                    assert(s =~= seq![Step::CompareDatabases, Step::RemoveDuplicateFilenames]);
                    assert(s[0] == Step::CompareDatabases);
                    assert(s[1] == Step::RemoveDuplicateFilenames);
                    assert(!s.contains(Step::DeepDive)) by {
                        if s.contains(Step::DeepDive) {
                            let i = choose|i: int| 0 <= i < s.len() && s[i] == Step::DeepDive;
                        }
                    }
                    assert(!s.contains(Step::PruneTags)) by {
                        if s.contains(Step::PruneTags) {
                            let i = choose|i: int| 0 <= i < s.len() && s[i] == Step::PruneTags;
                        }
                    }
                }
            }
        } else {
            if c.deep_dive {
                if c.prune_tags {
                    assert(s =~= seq![Step::CompareDatabases, Step::DeepDive, Step::PruneTags]);
                    assert(s[0] == Step::CompareDatabases);
                    assert(!s.contains(Step::RemoveDuplicateFilenames)) by {
                        if s.contains(Step::RemoveDuplicateFilenames) {
                            let i = choose|i: int| 0 <= i < s.len() && s[i] == Step::RemoveDuplicateFilenames;
                        }
                    }
                    assert(s[1] == Step::DeepDive);
                    assert(s[2] == Step::PruneTags);
                } else {
                    assert(s =~= seq![Step::CompareDatabases, Step::DeepDive]);
                    assert(s[0] == Step::CompareDatabases);
                    assert(!s.contains(Step::RemoveDuplicateFilenames)) by {
                        if s.contains(Step::RemoveDuplicateFilenames) {
                            let i = choose|i: int| 0 <= i < s.len() && s[i] == Step::RemoveDuplicateFilenames;
                        }
                    }
                    assert(s[1] == Step::DeepDive);
                    assert(!s.contains(Step::PruneTags)) by {
                        if s.contains(Step::PruneTags) {
                            let i = choose|i: int| 0 <= i < s.len() && s[i] == Step::PruneTags;
                        }
                    }
                }
            } else {
                if c.prune_tags {
                    assert(s =~= seq![Step::CompareDatabases, Step::PruneTags]);
                    assert(s[0] == Step::CompareDatabases);
                    assert(!s.contains(Step::RemoveDuplicateFilenames)) by {
                        if s.contains(Step::RemoveDuplicateFilenames) {
                            let i = choose|i: int| 0 <= i < s.len() && s[i] == Step::RemoveDuplicateFilenames;
                        }
                    }
                    assert(!s.contains(Step::DeepDive)) by {
                        if s.contains(Step::DeepDive) {
                            let i = choose|i: int| 0 <= i < s.len() && s[i] == Step::DeepDive;
                        }
                    }
                    assert(s[1] == Step::PruneTags);
                } else {
                    assert(s =~= seq![Step::CompareDatabases]);
                    assert(s[0] == Step::CompareDatabases);
                    assert(!s.contains(Step::RemoveDuplicateFilenames)) by {
                        if s.contains(Step::RemoveDuplicateFilenames) {
                            let i = choose|i: int| 0 <= i < s.len() && s[i] == Step::RemoveDuplicateFilenames;
                        }
                    }
                    assert(!s.contains(Step::DeepDive)) by {
                        if s.contains(Step::DeepDive) {
                            let i = choose|i: int| 0 <= i < s.len() && s[i] == Step::DeepDive;
                        }
                    }
                    assert(!s.contains(Step::PruneTags)) by {
                        if s.contains(Step::PruneTags) {
                            let i = choose|i: int| 0 <= i < s.len() && s[i] == Step::PruneTags;
                        }
                    }
                }
            }
        }
    } else {
        if c.filename_check {
            if c.deep_dive {
                if c.prune_tags {
                    assert(s =~= seq![Step::RemoveDuplicateFilenames, Step::DeepDive, Step::PruneTags]);
                    assert(!s.contains(Step::CompareDatabases)) by {
                        if s.contains(Step::CompareDatabases) {
                            let i = choose|i: int| 0 <= i < s.len() && s[i] == Step::CompareDatabases;
                        }
                    }
                    assert(s[0] == Step::RemoveDuplicateFilenames);
                    assert(s[1] == Step::DeepDive);
                    assert(s[2] == Step::PruneTags);
                } else {
                    assert(s =~= seq![Step::RemoveDuplicateFilenames, Step::DeepDive]);
                    assert(!s.contains(Step::CompareDatabases)) by {
                        if s.contains(Step::CompareDatabases) {
                            let i = choose|i: int| 0 <= i < s.len() && s[i] == Step::CompareDatabases;
                        }
                    }
                    assert(s[0] == Step::RemoveDuplicateFilenames);
                    assert(s[1] == Step::DeepDive);
                    assert(!s.contains(Step::PruneTags)) by {
                        if s.contains(Step::PruneTags) {
                            let i = choose|i: int| 0 <= i < s.len() && s[i] == Step::PruneTags;
                        }
                    }
                }
            } else {
                if c.prune_tags {
                    assert(s =~= seq![Step::RemoveDuplicateFilenames, Step::PruneTags]);
                    assert(!s.contains(Step::CompareDatabases)) by {
                        if s.contains(Step::CompareDatabases) {
                            let i = choose|i: int| 0 <= i < s.len() && s[i] == Step::CompareDatabases;
                        }
                    }
                    assert(s[0] == Step::RemoveDuplicateFilenames);
                    assert(!s.contains(Step::DeepDive)) by {
                        if s.contains(Step::DeepDive) {
                            let i = choose|i: int| 0 <= i < s.len() && s[i] == Step::DeepDive;
                        }
                    }
                    assert(s[1] == Step::PruneTags);
                } else {
                    assert(s =~= seq![Step::RemoveDuplicateFilenames]);
                    assert(!s.contains(Step::CompareDatabases)) by {
                        if s.contains(Step::CompareDatabases) {
                            let i = choose|i: int| 0 <= i < s.len() && s[i] == Step::CompareDatabases;
                        }
                    }
                    assert(s[0] == Step::RemoveDuplicateFilenames);
                    assert(!s.contains(Step::DeepDive)) by {
                        if s.contains(Step::DeepDive) {
                            let i = choose|i: int| 0 <= i < s.len() && s[i] == Step::DeepDive;
                        }
                    }
                    assert(!s.contains(Step::PruneTags)) by {
                        if s.contains(Step::PruneTags) {
                            let i = choose|i: int| 0 <= i < s.len() && s[i] == Step::PruneTags;
                        }
                    }
                }
            }
        } else {
            if c.deep_dive {
                if c.prune_tags {
                    assert(s =~= seq![Step::DeepDive, Step::PruneTags]);
                    assert(!s.contains(Step::CompareDatabases)) by {
                        if s.contains(Step::CompareDatabases) {
                            let i = choose|i: int| 0 <= i < s.len() && s[i] == Step::CompareDatabases;
                        }
                    }
                    assert(!s.contains(Step::RemoveDuplicateFilenames)) by {
                        if s.contains(Step::RemoveDuplicateFilenames) {
                            let i = choose|i: int| 0 <= i < s.len() && s[i] == Step::RemoveDuplicateFilenames;
                        }
                    }
                    assert(s[0] == Step::DeepDive);
                    assert(s[1] == Step::PruneTags);
                } else {
                    assert(s =~= seq![Step::DeepDive]);
                    assert(!s.contains(Step::CompareDatabases)) by {
                        if s.contains(Step::CompareDatabases) {
                            let i = choose|i: int| 0 <= i < s.len() && s[i] == Step::CompareDatabases;
                        }
                    }
                    assert(!s.contains(Step::RemoveDuplicateFilenames)) by {
                        if s.contains(Step::RemoveDuplicateFilenames) {
                            let i = choose|i: int| 0 <= i < s.len() && s[i] == Step::RemoveDuplicateFilenames;
                        }
                    }
                    assert(s[0] == Step::DeepDive);
                    assert(!s.contains(Step::PruneTags)) by {
                        if s.contains(Step::PruneTags) {
                            let i = choose|i: int| 0 <= i < s.len() && s[i] == Step::PruneTags;
                        }
                    }
                }
            } else {
                if c.prune_tags {
                    assert(s =~= seq![Step::PruneTags]);
                    assert(!s.contains(Step::CompareDatabases)) by {
                        if s.contains(Step::CompareDatabases) {
                            let i = choose|i: int| 0 <= i < s.len() && s[i] == Step::CompareDatabases;
                        }
                    }
                    assert(!s.contains(Step::RemoveDuplicateFilenames)) by {
                        if s.contains(Step::RemoveDuplicateFilenames) {
                            let i = choose|i: int| 0 <= i < s.len() && s[i] == Step::RemoveDuplicateFilenames;
                        }
                    }
                    assert(!s.contains(Step::DeepDive)) by {
                        if s.contains(Step::DeepDive) {
                            let i = choose|i: int| 0 <= i < s.len() && s[i] == Step::DeepDive;
                        }
                    }
                    assert(s[0] == Step::PruneTags);
                } else {
                    assert(s =~= Seq::<Step>::empty());
                    assert(!s.contains(Step::CompareDatabases)) by {
                        if s.contains(Step::CompareDatabases) {
                            let i = choose|i: int| 0 <= i < s.len() && s[i] == Step::CompareDatabases;
                        }
                    }
                    assert(!s.contains(Step::RemoveDuplicateFilenames)) by {
                        if s.contains(Step::RemoveDuplicateFilenames) {
                            let i = choose|i: int| 0 <= i < s.len() && s[i] == Step::RemoveDuplicateFilenames;
                        }
                    }
                    assert(!s.contains(Step::DeepDive)) by {
                        if s.contains(Step::DeepDive) {
                            let i = choose|i: int| 0 <= i < s.len() && s[i] == Step::DeepDive;
                        }
                    }
                    assert(!s.contains(Step::PruneTags)) by {
                        if s.contains(Step::PruneTags) {
                            let i = choose|i: int| 0 <= i < s.len() && s[i] == Step::PruneTags;
                        }
                    }
                }
            }
        }
    }
}

} // verus!
