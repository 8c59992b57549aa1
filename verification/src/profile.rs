//! The slice of a user's profile that the enrichment pipeline reads, and the
//! display-name and icon derivation rules.

use vstd::prelude::*;
use crate::strmap::Dup;

verus! {

/// What the pipeline reads out of a fetched user object: the generic name and
/// real name at the top level, and the display name and avatar URLs of the
/// profile sub-object. A field is present only when the source carries it as
/// a string.
pub struct UserProfile {
    pub name: Option<String>,
    pub real_name: Option<String>,
    pub display_name: Option<String>,
    pub image_72: Option<String>,
    pub image_48: Option<String>,
}

/// Mathematical view of a profile.
pub ghost struct ProfileView {
    pub name: Option<Seq<char>>,
    pub real_name: Option<Seq<char>>,
    pub display_name: Option<Seq<char>>,
    pub image_72: Option<Seq<char>>,
    pub image_48: Option<Seq<char>>,
}

pub open spec fn view_of_opt(s: Option<String>) -> Option<Seq<char>> {
    match s {
        Some(s) => Some(s@),
        None => None,
    }
}

impl View for UserProfile {
    type V = ProfileView;

    open spec fn view(&self) -> ProfileView {
        ProfileView {
            name: view_of_opt(self.name),
            real_name: view_of_opt(self.real_name),
            display_name: view_of_opt(self.display_name),
            image_72: view_of_opt(self.image_72),
            image_48: view_of_opt(self.image_48),
        }
    }
}

fn dup_opt(s: &Option<String>) -> (r: Option<String>)
    ensures
        view_of_opt(r) == view_of_opt(*s),
{
    match s {
        Some(s) => Some(s.clone()),
        None => None,
    }
}

impl Dup for UserProfile {
    fn dup(&self) -> (r: Self) {
        UserProfile {
            name: dup_opt(&self.name),
            real_name: dup_opt(&self.real_name),
            display_name: dup_opt(&self.display_name),
            image_72: dup_opt(&self.image_72),
            image_48: dup_opt(&self.image_48),
        }
    }
}

/// The author name shown on messages and reactions: the real name, else the
/// generic name, else "unknown". A missing profile also yields "unknown".
pub open spec fn spec_author_name(p: Option<ProfileView>) -> Seq<char> {
    match p {
        Some(p) => match p.real_name {
            Some(n) => n,
            None => match p.name {
                Some(n) => n,
                None => "unknown"@,
            },
        },
        None => "unknown"@,
    }
}

/// The name used for an inline mention: the profile display name when it is
/// non-empty, else the real name, else the generic name, else "unknown".
pub open spec fn spec_mention_name(p: Option<ProfileView>) -> Seq<char> {
    match p {
        Some(p) => match p.display_name {
            Some(n) => if n.len() > 0 {
                n
            } else {
                spec_author_name(Some(p))
            },
            None => spec_author_name(Some(p)),
        },
        None => "unknown"@,
    }
}

/// The author icon: the 72-pixel avatar, else the 48-pixel one, else empty.
pub open spec fn spec_author_icon(p: Option<ProfileView>) -> Seq<char> {
    match p {
        Some(p) => match p.image_72 {
            Some(u) => u,
            None => match p.image_48 {
                Some(u) => u,
                None => Seq::empty(),
            },
        },
        None => Seq::empty(),
    }
}

/// See [`spec_author_name`].
pub fn author_name(p: Option<&UserProfile>) -> (r: String)
    ensures
        r@ == spec_author_name(match p {
            Some(p) => Some(p@),
            None => None,
        }),
{
    match p {
        Some(p) => match &p.real_name {
            Some(n) => n.clone(),
            None => match &p.name {
                Some(n) => n.clone(),
                None => "unknown".to_owned(),
            },
        },
        None => "unknown".to_owned(),
    }
}

/// See [`spec_mention_name`].
pub fn mention_name(p: Option<&UserProfile>) -> (r: String)
    ensures
        r@ == spec_mention_name(match p {
            Some(p) => Some(p@),
            None => None,
        }),
{
    match p {
        Some(prof) => match &prof.display_name {
            Some(n) => {
                if !n.as_str().is_empty() {
                    n.clone()
                } else {
                    author_name(p)
                }
            },
            None => author_name(p),
        },
        None => "unknown".to_owned(),
    }
}

/// See [`spec_author_icon`].
pub fn author_icon(p: Option<&UserProfile>) -> (r: String)
    ensures
        r@ == spec_author_icon(match p {
            Some(p) => Some(p@),
            None => None,
        }),
{
    let r = match p {
        Some(p) => match &p.image_72 {
            Some(u) => u.clone(),
            None => match &p.image_48 {
                Some(u) => u.clone(),
                None => String::new(),
            },
        },
        None => String::new(),
    };
    proof {
        assert(Seq::<char>::empty() =~= Seq::<char>::empty());
    }
    r
}

} // verus!
