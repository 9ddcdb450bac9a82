//! The six creative stages of a book project.
use vstd::prelude::*;

verus! {

/// A workflow stage: three book-level stages, then three chapter stages.
#[derive(Debug, Clone, Copy, PartialEq, Eq, Structural)]
pub enum Stage {
    Setting,
    Outline,
    Characters,
    Draft,
    Review,
    Revision,
}

/// The machine name of a stage.
pub open spec fn stage_name(stage: Stage) -> Seq<char> {
    match stage {
        Stage::Setting => "setting"@,
        Stage::Outline => "outline"@,
        Stage::Characters => "characters"@,
        Stage::Draft => "draft"@,
        Stage::Review => "review"@,
        Stage::Revision => "revision"@,
    }
}

/// The display title of a stage.
pub open spec fn stage_title(stage: Stage) -> Seq<char> {
    match stage {
        Stage::Setting => "设定"@,
        Stage::Outline => "大纲"@,
        Stage::Characters => "角色"@,
        Stage::Draft => "草稿"@,
        Stage::Review => "试读"@,
        Stage::Revision => "修订"@,
    }
}

impl Stage {
    /// The machine name, as stored in the database.
    pub fn as_str(&self) -> (r: &'static str)
        ensures
            r@ == stage_name(*self),
    {
        match self {
            Stage::Setting => "setting",
            Stage::Outline => "outline",
            Stage::Characters => "characters",
            Stage::Draft => "draft",
            Stage::Review => "review",
            Stage::Revision => "revision",
        }
    }

    /// The display title used in rendered prompts.
    pub fn title(&self) -> (r: &'static str)
        ensures
            r@ == stage_title(*self),
    {
        match self {
            Stage::Setting => "设定",
            Stage::Outline => "大纲",
            Stage::Characters => "角色",
            Stage::Draft => "草稿",
            Stage::Review => "试读",
            Stage::Revision => "修订",
        }
    }
}

} // verus!
