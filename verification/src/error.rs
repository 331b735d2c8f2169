//! What can go wrong on a connection, and how it is put into words.
use vstd::prelude::*;
use vstd::string::{to_string_from_display_ensures, StringExecFns};

verus! {

/// `futures::task::SpawnError`, carried through as it comes from the spawner. Nothing is
/// claimed of what is inside.
#[verifier::external_type_specification]
#[verifier::external_body]
pub struct ExSpawnError(futures::task::SpawnError);

/// What a read can end in. `E` is the error of the underlying stream.
#[derive(Debug)]
pub enum SerdeReadError<E> {
    /// The underlying stream failed.
    Stream(E),
    /// The payload does not decode to the item that is read.
    Serde,
    /// A frame came in that is too short to name a context.
    Insufficient,
    /// No frame will come in any more.
    Terminated,
}

/// What a write can end in. `E` is the error of the underlying sink.
#[derive(Debug)]
pub enum SerdeWriteError<E> {
    /// The underlying sink failed.
    Sink(E),
    /// The item that is written does not encode.
    Serde,
}

/// What a connection can end in. `E` is the error of the protocol that runs over it.
#[derive(Debug)]
pub enum WithSpawnError<E> {
    /// The protocol failed.
    Protocol(E),
    /// The tasks of the connection could not be spawned.
    Spawn(futures::task::SpawnError),
}

impl<E: Clone> Clone for SerdeReadError<E> {
    fn clone(&self) -> (copy: Self)
        ensures
            match (*self, copy) {
                (SerdeReadError::Stream(cause), SerdeReadError::Stream(again)) => cloned(
                    cause,
                    again,
                ),
                (SerdeReadError::Stream(_), _) => false,
                (_, _) => copy == *self,
            },
    {
        match self {
            SerdeReadError::Stream(cause) => SerdeReadError::Stream(cause.clone()),
            SerdeReadError::Serde => SerdeReadError::Serde,
            SerdeReadError::Insufficient => SerdeReadError::Insufficient,
            SerdeReadError::Terminated => SerdeReadError::Terminated,
        }
    }
}

impl<E: Clone> Clone for SerdeWriteError<E> {
    fn clone(&self) -> (copy: Self)
        ensures
            match (*self, copy) {
                (SerdeWriteError::Sink(cause), SerdeWriteError::Sink(again)) => cloned(
                    cause,
                    again,
                ),
                (SerdeWriteError::Sink(_), _) => false,
                (_, _) => copy == *self,
            },
    {
        match self {
            SerdeWriteError::Sink(cause) => SerdeWriteError::Sink(cause.clone()),
            SerdeWriteError::Serde => SerdeWriteError::Serde,
        }
    }
}

/// `message` is `prefix` followed by what `cause` displays as.
pub open spec fn displays_behind<T: core::fmt::Display>(
    prefix: Seq<char>,
    cause: &T,
    message: Seq<char>,
) -> bool {
    exists|shown: String| #[trigger]
        to_string_from_display_ensures::<T>(cause, shown) && message == prefix + shown@
}

fn prefixed<T: core::fmt::Display>(prefix: &str, cause: &T) -> (message: String)
    ensures
        displays_behind(prefix@, cause, message@),
{
    let shown = cause.to_string();
    prefix.to_string().concat(shown.as_str())
}

impl<E: core::fmt::Display> SerdeReadError<E> {
    /// The error in words.
    pub fn message(&self) -> (message: String)
        ensures
            match self {
                SerdeReadError::Stream(cause) => displays_behind(
                    "error in underlying stream: "@,
                    cause,
                    message@,
                ),
                SerdeReadError::Serde => message@ == "serde error"@,
                SerdeReadError::Insufficient => message@ == "received insufficient buffer"@,
                SerdeReadError::Terminated => message@ == "stream completed early"@,
            },
    {
        match self {
            SerdeReadError::Stream(cause) => prefixed("error in underlying stream: ", cause),
            SerdeReadError::Serde => "serde error".to_string(),
            SerdeReadError::Insufficient => "received insufficient buffer".to_string(),
            SerdeReadError::Terminated => "stream completed early".to_string(),
        }
    }
}

impl<E: core::fmt::Display> SerdeWriteError<E> {
    /// The error in words.
    pub fn message(&self) -> (message: String)
        ensures
            match self {
                SerdeWriteError::Sink(cause) => displays_behind(
                    "error in underlying sink: "@,
                    cause,
                    message@,
                ),
                SerdeWriteError::Serde => message@ == "serde error"@,
            },
    {
        match self {
            SerdeWriteError::Sink(cause) => prefixed("error in underlying sink: ", cause),
            SerdeWriteError::Serde => "serde error".to_string(),
        }
    }
}

impl<E: core::fmt::Display> WithSpawnError<E> {
    /// The error in words.
    pub fn message(&self) -> (message: String)
        ensures
            match self {
                WithSpawnError::Protocol(cause) => displays_behind(
                    "error in underlying protocol: "@,
                    cause,
                    message@,
                ),
                WithSpawnError::Spawn(cause) => displays_behind(
                    "spawn error: "@,
                    cause,
                    message@,
                ),
            },
    {
        match self {
            WithSpawnError::Protocol(cause) => prefixed("error in underlying protocol: ", cause),
            WithSpawnError::Spawn(cause) => prefixed("spawn error: ", cause),
        }
    }
}

impl<E> SerdeWriteError<E> {
    /// The error underneath, where there is one.
    pub fn source(&self) -> (cause: Option<&E>)
        ensures
            cause == match self {
                SerdeWriteError::Sink(inner) => Some(inner),
                SerdeWriteError::Serde => None,
            },
    {
        match self {
            SerdeWriteError::Sink(inner) => Some(inner),
            SerdeWriteError::Serde => None,
        }
    }
}

/// A message about a cause is its prefix, and behind it just what the cause displays as.
pub proof fn law_message_is_prefix_and_cause<T: core::fmt::Display>(
    prefix: Seq<char>,
    cause: &T,
    message: Seq<char>,
)
    requires
        displays_behind(prefix, cause, message),
    ensures
        message.len() >= prefix.len(),
        message.take(prefix.len() as int) == prefix,
        exists|shown: String| #[trigger]
            to_string_from_display_ensures::<T>(cause, shown) && shown@ == message.skip(
                prefix.len() as int,
            ),
{
    let shown = choose|shown: String| #[trigger]
        to_string_from_display_ensures::<T>(cause, shown) && message == prefix + shown@;
    assert(message.take(prefix.len() as int) =~= prefix);
    assert(shown@ =~= message.skip(prefix.len() as int));
}

/// What the errors of a read say.
pub proof fn law_read_errors_in_words<E: core::fmt::Display>(
    error: SerdeReadError<E>,
    message: String,
)
    requires
        SerdeReadError::<E>::message.ensures((&error,), message),
    ensures
        match error {
            SerdeReadError::Stream(cause) => exists|shown: String| #[trigger]
                to_string_from_display_ensures::<E>(&cause, shown) && message@
                    == "error in underlying stream: "@ + shown@,
            SerdeReadError::Serde => message@ == "serde error"@,
            SerdeReadError::Insufficient => message@ == "received insufficient buffer"@,
            SerdeReadError::Terminated => message@ == "stream completed early"@,
        },
{
}

/// What the errors of a write say, and what is underneath.
pub proof fn law_write_errors_in_words<E: core::fmt::Display>(
    error: SerdeWriteError<E>,
    message: String,
    source: Option<&E>,
)
    requires
        SerdeWriteError::<E>::message.ensures((&error,), message),
        SerdeWriteError::<E>::source.ensures((&error,), source),
    ensures
        match error {
            SerdeWriteError::Sink(cause) => source == Some(&cause) && exists|shown: String|
                #[trigger] to_string_from_display_ensures::<E>(&cause, shown) && message@
                    == "error in underlying sink: "@ + shown@,
            SerdeWriteError::Serde => source is None && message@ == "serde error"@,
        },
{
}

/// What the errors of a connection say.
pub proof fn law_connection_errors_in_words<E: core::fmt::Display>(
    error: WithSpawnError<E>,
    message: String,
)
    requires
        WithSpawnError::<E>::message.ensures((&error,), message),
    ensures
        match error {
            WithSpawnError::Protocol(cause) => exists|shown: String| #[trigger]
                to_string_from_display_ensures::<E>(&cause, shown) && message@
                    == "error in underlying protocol: "@ + shown@,
            WithSpawnError::Spawn(cause) => exists|shown: String| #[trigger]
                to_string_from_display_ensures::<futures::task::SpawnError>(&cause, shown)
                    && message@ == "spawn error: "@ + shown@,
        },
{
}

/// A copy of an error is the same error, with a copy of its cause.
pub proof fn law_copied_errors_are_the_same<E: Clone>(
    read: SerdeReadError<E>,
    read_copy: SerdeReadError<E>,
    write: SerdeWriteError<E>,
    write_copy: SerdeWriteError<E>,
)
    requires
        call_ensures(SerdeReadError::<E>::clone, (&read,), read_copy),
        call_ensures(SerdeWriteError::<E>::clone, (&write,), write_copy),
    ensures
        match read {
            SerdeReadError::Stream(cause) => read_copy matches SerdeReadError::Stream(again)
                && cloned(cause, again),
            SerdeReadError::Serde => read_copy is Serde,
            SerdeReadError::Insufficient => read_copy is Insufficient,
            SerdeReadError::Terminated => read_copy is Terminated,
        },
        match write {
            SerdeWriteError::Sink(cause) => write_copy matches SerdeWriteError::Sink(again)
                && cloned(cause, again),
            SerdeWriteError::Serde => write_copy is Serde,
        },
{
}

} // verus!
