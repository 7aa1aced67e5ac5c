//! The commands that the log records, and their form on the wire.

use crate::error::KvsError;
use crate::json::{distinct_names, json_text, write_object, Members};
use vstd::prelude::*;

verus! {

/// One entry of the log: `Put` sets a key to a value (on the wire its tag is
/// `Set`), `Remove` takes the key's value away.
#[derive(Debug)]
pub enum Command {
    Put { key: String, value: String },
    Remove { key: String },
}

/// The mathematical value of a `Command`.
pub enum CommandView {
    Put { key: Seq<char>, value: Seq<char> },
    Remove { key: Seq<char> },
}

impl CommandView {
    /// The key that the command is about.
    pub open spec fn key(self) -> Seq<char> {
        match self {
            CommandView::Put { key, .. } => key,
            CommandView::Remove { key } => key,
        }
    }

    /// The name of the command's variant on the wire.
    pub open spec fn tag(self) -> Seq<char> {
        match self {
            CommandView::Put { .. } => "Set"@,
            CommandView::Remove { .. } => "Remove"@,
        }
    }

    /// The command's fields on the wire, in the order of their names.
    pub open spec fn fields(self) -> Seq<(Seq<char>, Seq<char>)> {
        match self {
            CommandView::Put { key, value } => seq![("key"@, key), ("value"@, value)],
            CommandView::Remove { key } => seq![("key"@, key)],
        }
    }

    /// The bytes of the command's record.
    pub open spec fn text(self) -> Seq<u8> {
        json_text(self.tag(), self.fields())
    }

    /// The command that a JSON object stands for, if it stands for one: the
    /// object has one member, named by the command's tag, and that member has
    /// exactly the command's fields.
    pub open spec fn of_members(members: Members) -> Option<CommandView> {
        if members.len() == 1 && members[0].0 == "Set"@ && members[0].1.len() == 2
            && members[0].1[0].0 == "key"@ && members[0].1[1].0 == "value"@ {
            Some(CommandView::Put { key: members[0].1[0].1, value: members[0].1[1].1 })
        } else if members.len() == 1 && members[0].0 == "Remove"@ && members[0].1.len() == 1
            && members[0].1[0].0 == "key"@ {
            Some(CommandView::Remove { key: members[0].1[0].1 })
        } else {
            None
        }
    }
}

impl View for Command {
    type V = CommandView;

    open spec fn view(&self) -> CommandView {
        match *self {
            Command::Put { key, value } => CommandView::Put { key: key@, value: value@ },
            Command::Remove { key } => CommandView::Remove { key: key@ },
        }
    }
}

/// Every command is the one that its own tag and fields stand for.
pub proof fn lemma_members_round_trip(command: CommandView)
    ensures
        CommandView::of_members(seq![(command.tag(), command.fields())]) == Some(command),
        distinct_names(command.fields()),
{
    reveal_strlit("Set");
    reveal_strlit("Remove");
    reveal_strlit("key");
    reveal_strlit("value");
    let members = seq![(command.tag(), command.fields())];
    assert(members[0] == (command.tag(), command.fields()));
    assert("Set"@.len() != "Remove"@.len());
    assert("key"@.len() != "value"@.len());
}

/// An object stands for a command only if it is that command's tag and fields.
pub proof fn law_members_exact(members: Members, command: CommandView)
    ensures
        CommandView::of_members(members) == Some(command) <==> members == seq![
            (command.tag(), command.fields()),
        ],
{
    lemma_members_round_trip(command);
    if CommandView::of_members(members) == Some(command) {
        assert(members[0].1 =~= command.fields());
        assert(members =~= seq![(command.tag(), command.fields())]);
    }
}

impl Command {
    /// The key that the command is about.
    pub fn key(&self) -> (key: &String)
        ensures
            key@ == self@.key(),
    {
        match self {
            Command::Put { key, .. } => key,
            Command::Remove { key } => key,
        }
    }

    /// Serializes the command into the bytes of its record: the command's
    /// text, which is never empty.
    pub fn to_bytes(&self) -> (bytes: Result<Vec<u8>, KvsError>)
        ensures
            bytes matches Ok(b) && b@ == self@.text() && b@.len() > 0,
    {
        proof {
            lemma_members_round_trip(self@);
        }
        let written = match self {
            Command::Put { key, value } => {
                let fields = vec![("key".to_owned(), key.clone()), ("value".to_owned(), value.clone())];
                assert(fields.deep_view() =~= self@.fields());
                write_object("Set", &fields)
            },
            Command::Remove { key } => {
                let fields = vec![("key".to_owned(), key.clone())];
                assert(fields.deep_view() =~= self@.fields());
                write_object("Remove", &fields)
            },
        };
        Command::serialized(written)
    }

    /// Maps what the serializer returned to the library's own result: the
    /// bytes where it succeeded, `Serde` where it failed.
    pub fn serialized(text: Result<Vec<u8>, serde_json::Error>) -> (bytes: Result<
        Vec<u8>,
        KvsError,
    >)
        ensures
            match text {
                Ok(b) => bytes == Ok::<Vec<u8>, KvsError>(b),
                Err(_) => bytes == Err::<Vec<u8>, KvsError>(KvsError::Serde),
            },
    {
        match text {
            Ok(b) => Ok(b),
            Err(_) => Err(KvsError::Serde),
        }
    }

    /// Reads a command off the members of a JSON object.
    ///
    /// Returns the command that the object stands for, and `None` where it
    /// stands for none.
    pub fn from_members(members: &Vec<(String, Vec<(String, String)>)>) -> (command: Option<Command>)
        ensures
            match command {
                Some(c) => CommandView::of_members(members.deep_view()) == Some(c@),
                None => CommandView::of_members(members.deep_view()) is None,
            },
    {
        if members.len() != 1 {
            return None;
        }
        let tag = &members[0].0;
        let fields = &members[0].1;
        assert(members.deep_view()[0] == (tag@, fields.deep_view()));
        if *tag == "Set".to_owned() {
            if fields.len() == 2 && fields[0].0 == "key".to_owned() && fields[1].0
                == "value".to_owned() {
                assert(fields.deep_view()[0] == (fields[0].0@, fields[0].1@));
                assert(fields.deep_view()[1] == (fields[1].0@, fields[1].1@));
                return Some(Command::Put { key: fields[0].1.clone(), value: fields[1].1.clone() });
            }
        }
        if *tag == "Remove".to_owned() {
            if fields.len() == 1 && fields[0].0 == "key".to_owned() {
                assert(fields.deep_view()[0] == (fields[0].0@, fields[0].1@));
                return Some(Command::Remove { key: fields[0].1.clone() });
            }
        }
        proof {
            reveal_strlit("Set");
            reveal_strlit("Remove");
            if fields.len() > 0 {
                assert(fields.deep_view()[0] == (fields[0].0@, fields[0].1@));
            }
            if fields.len() > 1 {
                assert(fields.deep_view()[1] == (fields[1].0@, fields[1].1@));
            }
        }
        None
    }
}

} // verus!
