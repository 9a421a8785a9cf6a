//! Default avatars: a picture drawn by an avatar service from a nickname.

use vstd::prelude::*;
use vstd::string::StringExecFns;

verus! {

/// The style an avatar is drawn in.
#[derive(Debug, Clone, Copy, PartialEq, Eq)]
pub enum AvatarType {
    Personas,
    Initials,
    Shapes,
    Identicon,
    Bottts,
    Avataaars,
}

impl AvatarType {
    /// The name of the style in an avatar address.
    pub open spec fn name(self) -> Seq<char> {
        match self {
            AvatarType::Personas => "personas"@,
            AvatarType::Initials => "initials"@,
            AvatarType::Shapes => "shapes"@,
            AvatarType::Identicon => "identicon"@,
            AvatarType::Bottts => "bottts"@,
            AvatarType::Avataaars => "avataaars"@,
        }
    }

    /// The name of the style in an avatar address.
    pub fn as_str(&self) -> (name: &'static str)
        ensures
            name@ == self.name(),
    {
        match self {
            AvatarType::Personas => "personas",
            AvatarType::Initials => "initials",
            AvatarType::Shapes => "shapes",
            AvatarType::Identicon => "identicon",
            AvatarType::Bottts => "bottts",
            AvatarType::Avataaars => "avataaars",
        }
    }

    /// The name of the style as an owned string.
    pub fn to_string(&self) -> (name: String)
        ensures
            name@ == self.name(),
    {
        String::from_str(self.as_str())
    }
}

/// The address of the avatar of `nickname` in the style `type_ava`.
pub open spec fn avatar_address(nickname: Seq<char>, type_ava: AvatarType) -> Seq<char> {
    "https://api.dicebear.com/9.x/"@ + type_ava.name() + "/svg?seed="@ + nickname
}

/// The address of the avatar of `nickname` in the style `type_ava`:
/// `https://api.dicebear.com/9.x/<style>/svg?seed=<nickname>`.
pub fn generate_avatar(nickname: String, type_ava: AvatarType) -> (address: String)
    ensures
        address@ == avatar_address(nickname@, type_ava),
{
    String::from_str("https://api.dicebear.com/9.x/").concat(type_ava.as_str()).concat(
        "/svg?seed=",
    ).concat(nickname.as_str())
}

} // verus!
