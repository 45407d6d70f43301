//! How an author starts: on a new channel, or on an existing one where it
//! goes on from a message it published before.

use vstd::prelude::*;

verus! {

/// Where the author starts.
pub enum AuthorStart {
    /// A new channel with a fresh seed: the author first announces it.
    NewChannel,
    /// The channel of `seed`, going on from the message `previous_message_id`.
    Resume { seed: String, previous_message_id: String },
}

/// Reads the start from the program's arguments (the first being the
/// program's name): with none, a new channel; otherwise the seed and the
/// identifier of the previous message.
pub fn author_start(args: &Vec<String>) -> (start: AuthorStart)
    requires
        args.len() != 2,
    ensures
        args.len() <= 1 ==> start is NewChannel,
        args.len() > 2 ==> (start matches AuthorStart::Resume { seed, previous_message_id }
            && seed@ == args[1]@ && previous_message_id@ == args[2]@),
{
    if args.len() > 1 {
        AuthorStart::Resume { seed: args[1].clone(), previous_message_id: args[2].clone() }
    } else {
        AuthorStart::NewChannel
    }
}

} // verus!
