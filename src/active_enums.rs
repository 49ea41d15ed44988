use vstd::prelude::*;

verus! {

/// Whether `v` spells `lit`.
fn spells(v: &String, lit: &str) -> (r: bool)
    ensures
        r == (v@ == lit@),
{
    let l = lit.to_owned();
    *v == l
}

/// The alias kind, as stored in its enum column.
#[derive(Clone, Copy, Debug, PartialEq, Eq, Structural)]
pub enum AliasType {
    Site,
    User,
}

impl AliasType {
    /// The stored value of this variant.
    pub open spec fn spec_value(self) -> Seq<char> {
        match self {
            AliasType::Site => "site"@,
            AliasType::User => "user"@,
        }
    }

    pub fn to_value(&self) -> (r: String)
        ensures
            r@ == self.spec_value(),
    {
        match self {
            AliasType::Site => "site".to_owned(),
            AliasType::User => "user".to_owned(),
        }
    }

    /// The variant stored as `v`, if any.
    pub fn try_from_value(v: &String) -> (r: Option<Self>)
        ensures
            r matches Some(x) ==> x.spec_value() == v@,
            r is None <==> (v@ != "site"@ && v@ != "user"@),
    {
        if spells(v, "site") {
            Some(AliasType::Site)
        } else if spells(v, "user") {
            Some(AliasType::User)
        } else {
            None
        }
    }
}

/// The kind of file revision, as stored in its enum column.
#[derive(Clone, Copy, Debug, PartialEq, Eq, Structural)]
pub enum FileRevisionType {
    Create,
    Delete,
    Undelete,
    Update,
}

impl FileRevisionType {
    /// The stored value of this variant.
    pub open spec fn spec_value(self) -> Seq<char> {
        match self {
            FileRevisionType::Create => "create"@,
            FileRevisionType::Delete => "delete"@,
            FileRevisionType::Undelete => "undelete"@,
            FileRevisionType::Update => "update"@,
        }
    }

    pub fn to_value(&self) -> (r: String)
        ensures
            r@ == self.spec_value(),
    {
        match self {
            FileRevisionType::Create => "create".to_owned(),
            FileRevisionType::Delete => "delete".to_owned(),
            FileRevisionType::Undelete => "undelete".to_owned(),
            FileRevisionType::Update => "update".to_owned(),
        }
    }

    /// The variant stored as `v`, if any.
    pub fn try_from_value(v: &String) -> (r: Option<Self>)
        ensures
            r matches Some(x) ==> x.spec_value() == v@,
            r is None <==> (v@ != "create"@ && v@ != "delete"@ && v@ != "undelete"@ && v@ != "update"@),
    {
        if spells(v, "create") {
            Some(FileRevisionType::Create)
        } else if spells(v, "delete") {
            Some(FileRevisionType::Delete)
        } else if spells(v, "undelete") {
            Some(FileRevisionType::Undelete)
        } else if spells(v, "update") {
            Some(FileRevisionType::Update)
        } else {
            None
        }
    }
}

/// The kind of object an interaction points at, as stored in its enum column.
#[derive(Clone, Copy, Debug, PartialEq, Eq, Structural)]
pub enum InteractionObjectType {
    File,
    Page,
    Site,
    User,
}

impl InteractionObjectType {
    /// The stored value of this variant.
    pub open spec fn spec_value(self) -> Seq<char> {
        match self {
            InteractionObjectType::File => "file"@,
            InteractionObjectType::Page => "page"@,
            InteractionObjectType::Site => "site"@,
            InteractionObjectType::User => "user"@,
        }
    }

    pub fn to_value(&self) -> (r: String)
        ensures
            r@ == self.spec_value(),
    {
        match self {
            InteractionObjectType::File => "file".to_owned(),
            InteractionObjectType::Page => "page".to_owned(),
            InteractionObjectType::Site => "site".to_owned(),
            InteractionObjectType::User => "user".to_owned(),
        }
    }

    /// The variant stored as `v`, if any.
    pub fn try_from_value(v: &String) -> (r: Option<Self>)
        ensures
            r matches Some(x) ==> x.spec_value() == v@,
            r is None <==> (v@ != "file"@ && v@ != "page"@ && v@ != "site"@ && v@ != "user"@),
    {
        if spells(v, "file") {
            Some(InteractionObjectType::File)
        } else if spells(v, "page") {
            Some(InteractionObjectType::Page)
        } else if spells(v, "site") {
            Some(InteractionObjectType::Site)
        } else if spells(v, "user") {
            Some(InteractionObjectType::User)
        } else {
            None
        }
    }
}

/// The way a message reaches a recipient, as stored in its enum column.
#[derive(Clone, Copy, Debug, PartialEq, Eq, Structural)]
pub enum MessageRecipientType {
    Bcc,
    Cc,
    Regular,
}

impl MessageRecipientType {
    /// The stored value of this variant.
    pub open spec fn spec_value(self) -> Seq<char> {
        match self {
            MessageRecipientType::Bcc => "bcc"@,
            MessageRecipientType::Cc => "cc"@,
            MessageRecipientType::Regular => "regular"@,
        }
    }

    pub fn to_value(&self) -> (r: String)
        ensures
            r@ == self.spec_value(),
    {
        match self {
            MessageRecipientType::Bcc => "bcc".to_owned(),
            MessageRecipientType::Cc => "cc".to_owned(),
            MessageRecipientType::Regular => "regular".to_owned(),
        }
    }

    /// The variant stored as `v`, if any.
    pub fn try_from_value(v: &String) -> (r: Option<Self>)
        ensures
            r matches Some(x) ==> x.spec_value() == v@,
            r is None <==> (v@ != "bcc"@ && v@ != "cc"@ && v@ != "regular"@),
    {
        if spells(v, "bcc") {
            Some(MessageRecipientType::Bcc)
        } else if spells(v, "cc") {
            Some(MessageRecipientType::Cc)
        } else if spells(v, "regular") {
            Some(MessageRecipientType::Regular)
        } else {
            None
        }
    }
}

/// The kind of page revision, as stored in its enum column.
#[derive(Clone, Copy, Debug, PartialEq, Eq, Structural)]
pub enum PageRevisionType {
    Create,
    Delete,
    Move,
    Regular,
    Undelete,
}

impl PageRevisionType {
    /// The stored value of this variant.
    pub open spec fn spec_value(self) -> Seq<char> {
        match self {
            PageRevisionType::Create => "create"@,
            PageRevisionType::Delete => "delete"@,
            PageRevisionType::Move => "move"@,
            PageRevisionType::Regular => "regular"@,
            PageRevisionType::Undelete => "undelete"@,
        }
    }

    pub fn to_value(&self) -> (r: String)
        ensures
            r@ == self.spec_value(),
    {
        match self {
            PageRevisionType::Create => "create".to_owned(),
            PageRevisionType::Delete => "delete".to_owned(),
            PageRevisionType::Move => "move".to_owned(),
            PageRevisionType::Regular => "regular".to_owned(),
            PageRevisionType::Undelete => "undelete".to_owned(),
        }
    }

    /// The variant stored as `v`, if any.
    pub fn try_from_value(v: &String) -> (r: Option<Self>)
        ensures
            r matches Some(x) ==> x.spec_value() == v@,
            r is None <==> (v@ != "create"@ && v@ != "delete"@ && v@ != "move"@ && v@ != "regular"@ && v@ != "undelete"@),
    {
        if spells(v, "create") {
            Some(PageRevisionType::Create)
        } else if spells(v, "delete") {
            Some(PageRevisionType::Delete)
        } else if spells(v, "move") {
            Some(PageRevisionType::Move)
        } else if spells(v, "regular") {
            Some(PageRevisionType::Regular)
        } else if spells(v, "undelete") {
            Some(PageRevisionType::Undelete)
        } else {
            None
        }
    }
}

/// The kind of user account, as stored in its enum column.
#[derive(Clone, Copy, Debug, PartialEq, Eq, Structural)]
pub enum UserType {
    Bot,
    Regular,
    Site,
    System,
}

impl UserType {
    /// The stored value of this variant.
    pub open spec fn spec_value(self) -> Seq<char> {
        match self {
            UserType::Bot => "bot"@,
            UserType::Regular => "regular"@,
            UserType::Site => "site"@,
            UserType::System => "system"@,
        }
    }

    pub fn to_value(&self) -> (r: String)
        ensures
            r@ == self.spec_value(),
    {
        match self {
            UserType::Bot => "bot".to_owned(),
            UserType::Regular => "regular".to_owned(),
            UserType::Site => "site".to_owned(),
            UserType::System => "system".to_owned(),
        }
    }

    /// The variant stored as `v`, if any.
    pub fn try_from_value(v: &String) -> (r: Option<Self>)
        ensures
            r matches Some(x) ==> x.spec_value() == v@,
            r is None <==> (v@ != "bot"@ && v@ != "regular"@ && v@ != "site"@ && v@ != "system"@),
    {
        if spells(v, "bot") {
            Some(UserType::Bot)
        } else if spells(v, "regular") {
            Some(UserType::Regular)
        } else if spells(v, "site") {
            Some(UserType::Site)
        } else if spells(v, "system") {
            Some(UserType::System)
        } else {
            None
        }
    }
}

} // verus!
