//! The password of `rclone` and how it is fetched from the secret service.

use vstd::prelude::*;

verus! {

/// A secret that is overwritten with zeros when it is dropped.
pub struct AutoReset(Vec<u8>);

impl AutoReset {
    /// The secret's bytes.
    pub closed spec fn bytes(&self) -> Seq<u8> {
        self.0@
    }

    /// Takes the secret `bytes` into keeping.
    pub fn new(bytes: Vec<u8>) -> (secret: AutoReset)
        ensures
            secret.bytes() == bytes@,
    {
        AutoReset(bytes)
    }

    /// The secret, to be written out.
    pub fn as_slice(&self) -> (bytes: &[u8])
        ensures
            bytes@ == self.bytes(),
    {
        self.0.as_slice()
    }

    /// Overwrites every byte with zero; the length stays.
    pub fn reset(&mut self)
        ensures
            final(self).bytes() == zeros(old(self).bytes().len()),
            final(self).bytes().len() == old(self).bytes().len(),
            forall|i: int|
                0 <= i < old(self).bytes().len() ==> #[trigger] final(self).bytes()[i] == 0,
        opens_invariants none
        no_unwind
    {
        fill(&mut self.0, 0)
    }
}

/// `len` zero bytes.
pub open spec fn zeros(len: nat) -> Seq<u8> {
    Seq::new(len, |i: int| 0u8)
}

/// Calls `<[u8]>::fill` of std.
///
/// Trusted: every byte of `bytes` is `value` afterwards and the length stays. Filling a slice of
/// `u8` copies a plain byte into each place, so it neither panics nor opens an invariant.
#[verifier::external_body]
fn fill(bytes: &mut Vec<u8>, value: u8)
    ensures
        final(bytes)@ == Seq::new(old(bytes)@.len(), |i: int| value),
    opens_invariants none
    no_unwind
{
    bytes.fill(value)
}

impl Drop for AutoReset {
    /// Overwrites the secret before its memory is given back.
    fn drop(&mut self)
        ensures
            final(self).bytes() == zeros(old(self).bytes().len()),
            final(self).bytes().len() == old(self).bytes().len(),
            forall|i: int|
                0 <= i < old(self).bytes().len() ==> #[trigger] final(self).bytes()[i] == 0,
        opens_invariants none
        no_unwind
    {
        self.reset();
    }
}

/// Why the password could not be fetched.
#[derive(Debug, Clone, Copy, PartialEq, Eq, Structural)]
pub enum PasswordError {
    /// No item has the attributes.
    NotFound,
    /// Several items have the attributes.
    Ambiguous,
    /// The secret service failed.
    Service,
}

impl PasswordError {
    /// The error in words; a failure of the service comes with words of its own.
    pub fn message(&self) -> (message: Option<&'static str>)
        ensures
            match *self {
                PasswordError::NotFound => message is Some && message->0@
                    == "The password of `rclone` isn't found"@,
                PasswordError::Ambiguous => message is Some && message->0@
                    == "There are more than one item matchcing those attributes of the password of `rclone`"@,
                PasswordError::Service => message is None,
            },
    {
        match self {
            PasswordError::NotFound => Some("The password of `rclone` isn't found"),
            PasswordError::Ambiguous => Some(
                "There are more than one item matchcing those attributes of the password of `rclone`",
            ),
            PasswordError::Service => None,
        }
    }
}

/// Among which items of a search the password is.
#[derive(Debug, Clone, Copy, PartialEq, Eq, Structural)]
pub enum Place {
    Unlocked,
    Locked,
}

/// What to do next in fetching the password.
#[derive(Debug, Clone, Copy, PartialEq, Eq, Structural)]
pub enum FetchCommand {
    /// Connect to the secret service.
    Connect,
    /// Search for the items with the entry's attributes.
    Search,
    /// Unlock the only locked item.
    Unlock,
    /// Read the secret of the only item there.
    Read(Place),
    /// Give up.
    Fail(PasswordError),
}

/// What came of the last command.
#[derive(Debug, Clone, Copy, PartialEq, Eq, Structural)]
pub enum FetchInput {
    Connected,
    /// The search found this many items.
    Found { locked: usize, unlocked: usize },
    ItemUnlocked,
    /// The service failed.
    Failed,
}

/// What to do after `input`. The password is only read if exactly one item was found, and a
/// locked item is unlocked first.
pub open spec fn next_fetch(input: FetchInput) -> FetchCommand {
    match input {
        FetchInput::Connected => FetchCommand::Search,
        FetchInput::Found { locked, unlocked } => {
            let total = locked + unlocked;
            if total == 0 {
                FetchCommand::Fail(PasswordError::NotFound)
            } else if total > 1 {
                FetchCommand::Fail(PasswordError::Ambiguous)
            } else if unlocked == 1 {
                FetchCommand::Read(Place::Unlocked)
            } else {
                FetchCommand::Unlock
            }
        },
        FetchInput::ItemUnlocked => FetchCommand::Read(Place::Locked),
        FetchInput::Failed => FetchCommand::Fail(PasswordError::Service),
    }
}

/// What a fetch does first, where `kept` is the connection that is kept.
pub open spec fn first_command<S>(kept: Option<S>) -> FetchCommand {
    if kept is Some {
        FetchCommand::Search
    } else {
        FetchCommand::Connect
    }
}

/// Says what to do after `input`.
pub fn fetch_on(input: FetchInput) -> (command: FetchCommand)
    ensures
        command == next_fetch(input),
{
    match input {
        FetchInput::Connected => FetchCommand::Search,
        FetchInput::Found { locked, unlocked } => {
            if locked == 0 && unlocked == 0 {
                FetchCommand::Fail(PasswordError::NotFound)
            } else if locked == 0 && unlocked == 1 {
                FetchCommand::Read(Place::Unlocked)
            } else if locked == 1 && unlocked == 0 {
                FetchCommand::Unlock
            } else {
                FetchCommand::Fail(PasswordError::Ambiguous)
            }
        },
        FetchInput::ItemUnlocked => FetchCommand::Read(Place::Locked),
        FetchInput::Failed => FetchCommand::Fail(PasswordError::Service),
    }
}

/// The attributes that say which secret is meant, as a map.
pub open spec fn attribute_map(target: Option<Seq<char>>) -> Map<Seq<char>, Seq<char>> {
    let service = Map::empty().insert("service"@, "rclone-mount-ext"@);
    match target {
        Some(target) => service.insert("target"@, target),
        None => service,
    }
}

/// The map that a list of names and values stands for.
pub open spec fn as_map(pairs: Seq<(String, String)>) -> Map<Seq<char>, Seq<char>>
    decreases pairs.len(),
{
    if pairs.len() == 0 {
        Map::empty()
    } else {
        as_map(pairs.drop_last()).insert(pairs.last().0@, pairs.last().1@)
    }
}

/// The password is looked for by the service's name and by its target: with the target `target`
/// the attributes are exactly the two names `service` and `target`, with `rclone-mount-ext` and
/// the whole of `target` as their values, and without a target exactly the first of them.
pub proof fn law_secret_is_named_by_service_and_target(target: Seq<char>, name: Seq<char>)
    ensures
        attribute_map(Some(target)).contains_key(name) <==> name == "service"@ || name
            == "target"@,
        attribute_map(Some(target))["service"@] == "rclone-mount-ext"@,
        attribute_map(Some(target))["target"@] == target,
        attribute_map(None).contains_key(name) <==> name == "service"@,
        attribute_map(None)["service"@] == "rclone-mount-ext"@,
        "service"@ != "target"@,
{
    reveal_strlit("service");
    reveal_strlit("target");
    assert("service"@.len() != "target"@.len());
}

/// Passwords with different targets are told apart, and one with a target from one without: their
/// attributes differ.
pub proof fn law_targets_are_told_apart(one: Option<Seq<char>>, other: Option<Seq<char>>)
    ensures
        attribute_map(one) == attribute_map(other) <==> one == other,
{
    reveal_strlit("service");
    reveal_strlit("target");
    assert("service"@.len() != "target"@.len());
    assert(attribute_map(None).contains_key("target"@) == false);
    if let Some(target) = one {
        assert(attribute_map(one)["target"@] == target);
        assert(attribute_map(one).contains_key("target"@));
    }
    if let Some(target) = other {
        assert(attribute_map(other)["target"@] == target);
        assert(attribute_map(other).contains_key("target"@));
    }
}

/// A list of names and values stands for all of its pairs and for nothing else, if no name is
/// given twice.
pub proof fn law_map_holds_each_pair(pairs: Seq<(String, String)>)
    requires
        forall|i: int, j: int|
            0 <= i < j < pairs.len() ==> (#[trigger] pairs[i]).0@ != (#[trigger] pairs[j]).0@,
    ensures
        forall|i: int|
            0 <= i < pairs.len() ==> as_map(pairs).contains_key((#[trigger] pairs[i]).0@)
                && as_map(pairs)[pairs[i].0@] == pairs[i].1@,
        forall|name: Seq<char>| #[trigger]
            as_map(pairs).contains_key(name) ==> exists|i: int|
                0 <= i < pairs.len() && (#[trigger] pairs[i]).0@ == name,
    decreases pairs.len(),
{
    if pairs.len() > 0 {
        let front = pairs.drop_last();
        law_map_holds_each_pair(front);
        assert forall|i: int| 0 <= i < pairs.len() implies as_map(pairs).contains_key(
            (#[trigger] pairs[i]).0@,
        ) && as_map(pairs)[pairs[i].0@] == pairs[i].1@ by {
            if i < pairs.len() - 1 {
                assert(front[i] == pairs[i]);
                assert(pairs[i].0@ != pairs[pairs.len() - 1].0@);
            }
        }
        assert forall|name: Seq<char>| #[trigger]
            as_map(pairs).contains_key(name) implies exists|i: int|
            0 <= i < pairs.len() && (#[trigger] pairs[i]).0@ == name by {
            if name == pairs.last().0@ {
                assert(pairs[pairs.len() - 1].0@ == name);
            } else {
                assert(as_map(front).contains_key(name));
                let i = choose|i: int| 0 <= i < front.len() && (#[trigger] front[i]).0@ == name;
                assert(pairs[i].0@ == name);
            }
        }
    }
}

/// Something that happens to a [`PasswordEntry`].
pub enum EntryUse<S> {
    /// A fetch begins.
    Begin,
    /// A fetch ends with the password read over this connection.
    PasswordRead(S),
}

/// The connection that is kept after `next`, where `kept` was kept before: a fetch takes the
/// connection out, and gives one back if it succeeds.
pub open spec fn after_use<S>(kept: Option<S>, next: EntryUse<S>) -> Option<S> {
    match next {
        EntryUse::Begin => None,
        EntryUse::PasswordRead(session) => Some(session),
    }
}

/// The connection that an entry keeps after `uses`.
pub open spec fn after_uses<S>(uses: Seq<EntryUse<S>>) -> Option<S>
    decreases uses.len(),
{
    if uses.len() == 0 {
        None
    } else {
        after_use(after_uses(uses.drop_last()), uses.last())
    }
}

/// The password of `rclone`: the attributes by which it is found, and the connection to the
/// secret service. The connection is kept from one fetch to the next, because some services ask
/// for permission again on a new one.
pub struct PasswordEntry<S> {
    secret_service: Option<S>,
    attributes: Vec<(String, String)>,
}

impl<S> PasswordEntry<S> {
    /// The connection that is kept.
    pub closed spec fn secret_service(&self) -> Option<S> {
        self.secret_service
    }

    /// The attributes.
    pub closed spec fn pairs(&self) -> Seq<(String, String)> {
        self.attributes@
    }

    /// No attribute is given twice.
    pub open spec fn wf(&self) -> bool {
        forall|i: int, j: int|
            0 <= i < j < self.pairs().len() ==> (#[trigger] self.pairs()[i]).0@ != (
            #[trigger] self.pairs()[j]).0@
    }

    /// The entry for the password with this target, if one is given; nothing is connected yet.
    pub fn new(target: Option<String>) -> (entry: PasswordEntry<S>)
        ensures
            entry.wf(),
            entry.secret_service() == after_uses(Seq::<EntryUse<S>>::empty()),
            as_map(entry.pairs()) == attribute_map(
                match target {
                    Some(target) => Some(target@),
                    None => None,
                },
            ),
            entry.secret_service() is None,
            entry.pairs().len() == (if target is Some {
                2int
            } else {
                1int
            }),
            entry.pairs()[0].0@ == "service"@,
            entry.pairs()[0].1@ == "rclone-mount-ext"@,
            target is Some ==> entry.pairs()[1].0@ == "target"@ && entry.pairs()[1].1@
                == target->0@,
    {
        let mut attributes: Vec<(String, String)> = Vec::new();
        attributes.push(("service".to_string(), "rclone-mount-ext".to_string()));
        proof {
            reveal_strlit("service");
            reveal_strlit("target");
            assert("service"@.len() != "target"@.len());
        }
        let ghost first = attributes@;
        proof {
            let nothing = Seq::<(String, String)>::empty();
            assert(first.drop_last() == nothing);
            assert(as_map(nothing) == Map::<Seq<char>, Seq<char>>::empty());
            assert(as_map(first) == attribute_map(None));
        }
        if let Some(target) = target {
            attributes.push(("target".to_string(), target));
            assert(attributes@.drop_last() == first);
        }
        PasswordEntry { secret_service: None, attributes }
    }

    /// The attributes to search for.
    pub fn attributes(&self) -> (pairs: &Vec<(String, String)>)
        ensures
            pairs@ == self.pairs(),
    {
        &self.attributes
    }

    /// Begins to fetch the password: hands out the connection, if one is kept, and says what to
    /// do first. Until the password has been read no connection is kept, so a fetch that fails
    /// makes the next one connect anew.
    pub fn get_password(&mut self) -> (begun: (Option<S>, FetchCommand))
        ensures
            final(self).pairs() == old(self).pairs(),
            final(self).secret_service() == after_use(
                old(self).secret_service(),
                EntryUse::Begin,
            ),
            begun.0 == old(self).secret_service(),
            begun.1 == first_command(old(self).secret_service()),
            final(self).secret_service() is None,
            begun.1 == (if begun.0 is Some {
                FetchCommand::Search
            } else {
                FetchCommand::Connect
            }),
    {
        match self.secret_service.take() {
            Some(session) => (Some(session), FetchCommand::Search),
            None => (None, FetchCommand::Connect),
        }
    }

    /// Ends a fetch that has read the password: keeps the connection and takes the password into
    /// keeping.
    pub fn password_read(&mut self, session: S, password: Vec<u8>) -> (secret: AutoReset)
        ensures
            final(self).pairs() == old(self).pairs(),
            final(self).secret_service() == after_use(
                old(self).secret_service(),
                EntryUse::PasswordRead(session),
            ),
            final(self).secret_service() == Some(session),
            secret.bytes() == password@,
    {
        self.secret_service = Some(session);
        AutoReset::new(password)
    }
}

/// Whether `input` can come of `command`. Reading the secret ends a fetch and is not an input.
pub open spec fn answers(command: FetchCommand, input: FetchInput) -> bool {
    match command {
        FetchCommand::Connect => input is Connected || input is Failed,
        FetchCommand::Search => input is Found || input is Failed,
        FetchCommand::Unlock => input is ItemUnlocked || input is Failed,
        FetchCommand::Read(_) => input is Failed,
        FetchCommand::Fail(_) => false,
    }
}

/// The command that a fetch that began with `first` has reached after `inputs`.
pub open spec fn reached(first: FetchCommand, inputs: Seq<FetchInput>) -> FetchCommand {
    if inputs.len() == 0 {
        first
    } else {
        next_fetch(inputs.last())
    }
}

/// `inputs` is a course that a fetch that began with `first` can take.
pub open spec fn is_course(first: FetchCommand, inputs: Seq<FetchInput>) -> bool
    decreases inputs.len(),
{
    inputs.len() > 0 ==> is_course(first, inputs.drop_last()) && answers(
        reached(first, inputs.drop_last()),
        inputs.last(),
    )
}

/// A secret is only read after a search that found exactly one item, and a locked item only
/// after it was unlocked.
pub proof fn law_only_the_one_item_is_read(
    first: FetchCommand,
    inputs: Seq<FetchInput>,
    place: Place,
)
    requires
        first is Connect || first is Search,
        is_course(first, inputs),
        reached(first, inputs) == FetchCommand::Read(place),
    ensures
        match place {
            Place::Unlocked => inputs.last() == (FetchInput::Found { locked: 0, unlocked: 1 }),
            Place::Locked => inputs.len() >= 2 && inputs.last() is ItemUnlocked
                && inputs[inputs.len() - 2] == (FetchInput::Found { locked: 1, unlocked: 0 }),
        },
{
    let front = inputs.drop_last();
    if place is Locked {
        assert(reached(first, front) is Unlock);
        assert(front.len() > 0);
    }
}

/// What a search found decides what comes next, for any numbers of locked and unlocked items: one
/// unlocked item and no other is read, one locked item and no other is unlocked, none at all is
/// not enough, and more than one are too many.
pub proof fn law_search_must_find_one(locked: usize, unlocked: usize)
    ensures
        ({
            let next = next_fetch(FetchInput::Found { locked, unlocked });
            &&& next is Read <==> locked == 0 && unlocked == 1
            &&& next == FetchCommand::Read(Place::Unlocked) <==> locked == 0 && unlocked == 1
            &&& next is Unlock <==> locked == 1 && unlocked == 0
            &&& next == FetchCommand::Fail(PasswordError::NotFound) <==> locked == 0 && unlocked
                == 0
            &&& next == FetchCommand::Fail(PasswordError::Ambiguous) <==> locked + unlocked >= 2
        }),
{
}

/// Each other step of a fetch is taken for one reason only: it searches once it is connected, it
/// reads a locked item once that is unlocked, and it fails with the service if that failed.
pub proof fn law_fetch_steps_have_their_reasons(input: FetchInput)
    ensures
        next_fetch(input) is Search <==> input is Connected,
        next_fetch(input) == FetchCommand::Read(Place::Locked) <==> input is ItemUnlocked,
        next_fetch(input) == FetchCommand::Fail(PasswordError::Service) <==> input is Failed,
        next_fetch(input) is Unlock ==> input is Found,
        next_fetch(input) == FetchCommand::Read(Place::Unlocked) ==> input is Found,
        next_fetch(input) !is Connect,
{
}

/// Where everything works the password is read: a fetch that connects, or searches over the
/// connection that was kept, comes to reading the one item, and unlocks it first if it is locked.
pub proof fn law_one_item_is_read<S>(kept: Option<S>, is_locked: bool)
    ensures
        ({
            let found = if is_locked {
                seq![FetchInput::Found { locked: 1, unlocked: 0 }, FetchInput::ItemUnlocked]
            } else {
                seq![FetchInput::Found { locked: 0, unlocked: 1 }]
            };
            let inputs = if kept is Some {
                found
            } else {
                seq![FetchInput::Connected] + found
            };
            let first = first_command(kept);
            &&& is_course(first, inputs)
            &&& reached(first, inputs) == FetchCommand::Read(
                if is_locked {
                    Place::Locked
                } else {
                    Place::Unlocked
                },
            )
        }),
{
    let first = first_command(kept);
    let none = Seq::<FetchInput>::empty();
    assert(is_course(first, none));
    let begun = if kept is Some {
        none
    } else {
        seq![FetchInput::Connected]
    };
    if kept is None {
        assert(begun.drop_last() == none);
    }
    assert(is_course(first, begun));
    if is_locked {
        let found = begun.push(FetchInput::Found { locked: 1, unlocked: 0 });
        let unlocked = found.push(FetchInput::ItemUnlocked);
        assert(found.drop_last() == begun);
        assert(is_course(first, found));
        assert(unlocked.drop_last() == found);
        assert(is_course(first, unlocked));
        assert(unlocked == begun + seq![
            FetchInput::Found { locked: 1, unlocked: 0 },
            FetchInput::ItemUnlocked,
        ]);
        assert(none + seq![
            FetchInput::Found { locked: 1, unlocked: 0 },
            FetchInput::ItemUnlocked,
        ] == seq![FetchInput::Found { locked: 1, unlocked: 0 }, FetchInput::ItemUnlocked]);
    } else {
        let found = begun.push(FetchInput::Found { locked: 0, unlocked: 1 });
        assert(found.drop_last() == begun);
        assert(is_course(first, found));
        assert(found == begun + seq![FetchInput::Found { locked: 0, unlocked: 1 }]);
        assert(none + seq![FetchInput::Found { locked: 0, unlocked: 1 }] == seq![
            FetchInput::Found { locked: 0, unlocked: 1 },
        ]);
    }
}

/// A connection that worked is used again: whatever happened to an entry before, a fetch that
/// begins now is handed the connection over which the fetch before it read the password, and
/// searches at once; if it is the first fetch, or the one before it did not get the password, it
/// is handed none and connects.
pub proof fn law_connection_is_reused<S>(uses: Seq<EntryUse<S>>)
    ensures
        uses.len() > 0 ==> match uses.last() {
            EntryUse::PasswordRead(session) => {
                &&& after_uses(uses) == Some(session)
                &&& first_command(after_uses(uses)) is Search
            },
            EntryUse::Begin => {
                &&& after_uses(uses) is None
                &&& first_command(after_uses(uses)) is Connect
            },
        },
        uses.len() == 0 ==> after_uses(uses) is None && first_command(after_uses(uses)) is Connect,
{
}

} // verus!
