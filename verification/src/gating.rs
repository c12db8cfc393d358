//! Where the stores of threads lie.

use vstd::prelude::*;
use vstd::string::*;

use crate::text::{trim, trimmed};

verus! {

/// Where the stores of threads lie.
#[derive(Debug, PartialEq, Eq)]
pub enum RootChoice {
    /// In this directory.
    Override(String),
    /// Below the home directory.
    Home,
    /// Below the profile of the user.
    UserProfile,
    /// Below the current directory.
    CurrentDirectory,
}

/// What a [`RootChoice`] stands for.
#[verifier::ext_equal]
pub enum RootChoiceView {
    Override(Seq<char>),
    Home,
    UserProfile,
    CurrentDirectory,
}

impl View for RootChoice {
    type V = RootChoiceView;

    open spec fn view(&self) -> RootChoiceView {
        match self {
            RootChoice::Override(dir) => RootChoiceView::Override(dir@),
            RootChoice::Home => RootChoiceView::Home,
            RootChoice::UserProfile => RootChoiceView::UserProfile,
            RootChoice::CurrentDirectory => RootChoiceView::CurrentDirectory,
        }
    }
}

/// Where the stores lie. A directory that is named by white space alone counts
/// as none.
pub open spec fn root_of(named: Option<Seq<char>>, has_home: bool, has_profile: bool) ->
    RootChoiceView {
    match named {
        Some(dir) if trimmed(dir).len() > 0 => RootChoiceView::Override(trimmed(dir)),
        _ => if has_home {
            RootChoiceView::Home
        } else if has_profile {
            RootChoiceView::UserProfile
        } else {
            RootChoiceView::CurrentDirectory
        },
    }
}

/// Where the stores lie: in the directory that the environment names, else below
/// the home directory or what stands for it.
pub fn lhc_root_choice(named: Option<&str>, has_home: bool, has_profile: bool) -> (r: RootChoice)
    ensures
        r@ == root_of(named.deep_view(), has_home, has_profile),
{
    if let Some(dir) = named {
        let dir = trim(dir);
        if dir.as_str().unicode_len() > 0 {
            return RootChoice::Override(dir);
        }
    }
    if has_home {
        RootChoice::Home
    } else if has_profile {
        RootChoice::UserProfile
    } else {
        RootChoice::CurrentDirectory
    }
}

} // verus!
