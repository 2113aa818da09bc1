//! The circuit keys of the credits program, and those of the stacks of a process.

use crate::process::program::Stack;
use crate::process::stacks::{Process, ProcessError};
use vstd::prelude::*;

verus! {

/// The keys of all given functions were made.
pub open spec fn keys_made<E, Make: Fn(u64) -> Result<(), E>>(
    make_key: Make,
    functions: Seq<u64>,
) -> bool {
    forall|i: int|
        0 <= i < functions.len() ==> call_ensures(
            make_key,
            (#[trigger] functions[i],),
            Ok::<(), E>(()),
        )
}

/// The key of one of the given functions was not made, while those of the earlier ones were.
pub open spec fn key_failed<E, Make: Fn(u64) -> Result<(), E>>(
    make_key: Make,
    functions: Seq<u64>,
    error: E,
) -> bool {
    exists|i: int|
        0 <= i < functions.len() && call_ensures(
            make_key,
            (#[trigger] functions[i],),
            Err::<(), E>(error),
        ) && keys_made(make_key, functions.take(i))
}

/// The calls that making the keys takes: each key is made once those of the earlier functions were.
pub open spec fn may_make_keys<E, Make: Fn(u64) -> Result<(), E>>(
    make_key: Make,
    functions: Seq<u64>,
) -> bool {
    forall|i: int|
        #![trigger functions[i]]
        0 <= i < functions.len() && keys_made(make_key, functions.take(i)) ==> call_requires(
            make_key,
            (functions[i],),
        )
}

/// Makes the keys of all given functions, in order.
fn make_keys<E, Make: Fn(u64) -> Result<(), E>>(functions: &Vec<u64>, make_key: &Make) -> (result:
    Result<(), E>)
    requires
        may_make_keys(*make_key, functions@),
    ensures
        match result {
            Ok(_) => keys_made(*make_key, functions@),
            Err(error) => key_failed(*make_key, functions@, error),
        },
{
    let mut i: usize = 0;
    while i < functions.len()
        invariant
            i <= functions@.len(),
            may_make_keys(*make_key, functions@),
            forall|j: int|
                0 <= j < i ==> call_ensures(
                    *make_key,
                    (#[trigger] functions@[j],),
                    Ok::<(), E>(()),
                ),
        decreases functions@.len() - i,
    {
        proof {
            let earlier = functions@.take(i as int);
            assert forall|j: int| 0 <= j < earlier.len() implies call_ensures(
                *make_key,
                (#[trigger] earlier[j],),
                Ok::<(), E>(()),
            ) by {
                assert(earlier[j] == functions@[j]);
            }
            assert(keys_made(*make_key, earlier));
        }
        match make_key(functions[i]) {
            Ok(unit) => {
                assert(unit == ());
            },
            Err(error) => {
                proof {
                    assert(call_ensures(
                        *make_key,
                        (functions@[i as int],),
                        Err::<(), E>(error),
                    ));
                    assert(key_failed(*make_key, functions@, error));
                }
                return Err(error);
            },
        }
        i = i + 1;
    }
    Ok(())
}

impl Process {
    /// Initializes a new process: synthesizes the circuit keys of the functions of the `credits.aleo`
    /// program, and the one for translating its record.
    pub fn setup<
        E,
        Synthesize: Fn(u64) -> Result<(), E>,
        SynthesizeTranslation: FnOnce(u64) -> Result<(), E>,
    >(
        credits: Stack,
        functions: &Vec<u64>,
        record: u64,
        synthesize_key: Synthesize,
        synthesize_translation_key: SynthesizeTranslation,
    ) -> (result: Result<Process, E>)
        requires
            may_make_keys(synthesize_key, functions@),
            keys_made(synthesize_key, functions@) ==> call_requires(
                synthesize_translation_key,
                (record,),
            ),
        ensures
            match result {
                Ok(process) => {
                    &&& process.holds_only(credits)
                    &&& keys_made(synthesize_key, functions@)
                    &&& call_ensures(synthesize_translation_key, (record,), Ok::<(), E>(()))
                },
                Err(error) => {
                    ||| key_failed(synthesize_key, functions@, error)
                    ||| keys_made(synthesize_key, functions@) && call_ensures(
                        synthesize_translation_key,
                        (record,),
                        Err::<(), E>(error),
                    )
                },
            },
    {
        match make_keys(functions, &synthesize_key) {
            Ok(_) => {},
            Err(error) => {
                return Err(error);
            },
        }
        match synthesize_translation_key(record) {
            Ok(unit) => {
                assert(unit == ());
            },
            Err(error) => {
                return Err(error);
            },
        }
        Ok(Process::load_web(credits))
    }

    /// Initializes a new process: inserts the verifying keys of the functions of the `credits.aleo`
    /// program, and the one for translating its record.
    pub fn load<E, Insert: Fn(u64) -> Result<(), E>>(
        credits: Stack,
        functions: &Vec<u64>,
        record: u64,
        insert_verifying_key: Insert,
    ) -> (result: Result<Process, E>)
        requires
            may_make_keys(insert_verifying_key, functions@),
            keys_made(insert_verifying_key, functions@) ==> call_requires(
                insert_verifying_key,
                (record,),
            ),
        ensures
            match result {
                Ok(process) => {
                    &&& process.holds_only(credits)
                    &&& keys_made(insert_verifying_key, functions@)
                    &&& call_ensures(insert_verifying_key, (record,), Ok::<(), E>(()))
                },
                Err(error) => {
                    ||| key_failed(insert_verifying_key, functions@, error)
                    ||| keys_made(insert_verifying_key, functions@) && call_ensures(
                        insert_verifying_key,
                        (record,),
                        Err::<(), E>(error),
                    )
                },
            },
    {
        match make_keys(functions, &insert_verifying_key) {
            Ok(_) => {},
            Err(error) => {
                return Err(error);
            },
        }
        match insert_verifying_key(record) {
            Ok(unit) => {
                assert(unit == ());
            },
            Err(error) => {
                return Err(error);
            },
        }
        Ok(Process::load_web(credits))
    }

    /// Initializes a new process with the first verifying keys of the functions of the `credits.aleo`
    /// program; these do not translate its record.
    pub fn load_v0<E, Insert: Fn(u64) -> Result<(), E>>(
        credits: Stack,
        functions: &Vec<u64>,
        insert_v0_verifying_key: Insert,
    ) -> (result: Result<Process, E>)
        requires
            may_make_keys(insert_v0_verifying_key, functions@),
        ensures
            match result {
                Ok(process) => process.holds_only(credits) && keys_made(
                    insert_v0_verifying_key,
                    functions@,
                ),
                Err(error) => key_failed(insert_v0_verifying_key, functions@, error),
            },
    {
        match make_keys(functions, &insert_v0_verifying_key) {
            Ok(_) => Ok(Process::load_web(credits)),
            Err(error) => Err(error),
        }
    }
}

/// The keys of a function were updated: its proving key was removed, and its verifying key inserted.
pub open spec fn function_updated<
    E,
    Remove: Fn(u64) -> Result<(), E>,
    Insert: Fn(u64) -> Result<(), E>,
>(remove_proving_key: Remove, insert_verifying_key: Insert, function: u64) -> bool {
    &&& call_ensures(remove_proving_key, (function,), Ok::<(), E>(()))
    &&& call_ensures(insert_verifying_key, (function,), Ok::<(), E>(()))
}

/// The keys of a function were not updated.
pub open spec fn function_failed<
    E,
    Remove: Fn(u64) -> Result<(), E>,
    Insert: Fn(u64) -> Result<(), E>,
>(remove_proving_key: Remove, insert_verifying_key: Insert, function: u64, error: E) -> bool {
    ||| call_ensures(remove_proving_key, (function,), Err::<(), E>(error))
    ||| call_ensures(remove_proving_key, (function,), Ok::<(), E>(())) && call_ensures(
        insert_verifying_key,
        (function,),
        Err::<(), E>(error),
    )
}

/// The keys of all given functions were updated.
pub open spec fn functions_updated<
    E,
    Remove: Fn(u64) -> Result<(), E>,
    Insert: Fn(u64) -> Result<(), E>,
>(remove_proving_key: Remove, insert_verifying_key: Insert, functions: Seq<u64>) -> bool {
    forall|i: int|
        0 <= i < functions.len() ==> function_updated(
            remove_proving_key,
            insert_verifying_key,
            #[trigger] functions[i],
        )
}

/// The keys of one of the given functions were not updated, while those of the earlier ones were.
pub open spec fn update_failed<
    E,
    Remove: Fn(u64) -> Result<(), E>,
    Insert: Fn(u64) -> Result<(), E>,
>(
    remove_proving_key: Remove,
    insert_verifying_key: Insert,
    functions: Seq<u64>,
    error: E,
) -> bool {
    exists|i: int|
        0 <= i < functions.len() && function_failed(
            remove_proving_key,
            insert_verifying_key,
            #[trigger] functions[i],
            error,
        ) && functions_updated(remove_proving_key, insert_verifying_key, functions.take(i))
}

/// The calls that updating the keys takes: the proving key of each function is removed once the earlier
/// functions were updated, and then its verifying key is inserted; that of the record comes last.
pub open spec fn may_update_keys<
    E,
    Remove: Fn(u64) -> Result<(), E>,
    Insert: Fn(u64) -> Result<(), E>,
>(
    remove_proving_key: Remove,
    insert_verifying_key: Insert,
    functions: Seq<u64>,
    record: u64,
) -> bool {
    &&& forall|i: int|
        #![trigger functions[i]]
        0 <= i < functions.len() && functions_updated(
            remove_proving_key,
            insert_verifying_key,
            functions.take(i),
        ) ==> {
            &&& call_requires(remove_proving_key, (functions[i],))
            &&& call_ensures(remove_proving_key, (functions[i],), Ok::<(), E>(()))
                ==> call_requires(insert_verifying_key, (functions[i],))
        }
    &&& functions_updated(remove_proving_key, insert_verifying_key, functions) ==> call_requires(
        insert_verifying_key,
        (record,),
    )
}

/// Updates the `credits.aleo` program with the latest verifying keys: removes the proving key of each
/// function and inserts its verifying key, and then inserts the verifying key for translating the
/// native record.
pub fn update_credits_verifying_keys<
    E,
    Remove: Fn(u64) -> Result<(), E>,
    Insert: Fn(u64) -> Result<(), E>,
>(
    functions: &Vec<u64>,
    record: u64,
    remove_proving_key: Remove,
    insert_verifying_key: Insert,
) -> (result: Result<(), E>)
    requires
        may_update_keys(remove_proving_key, insert_verifying_key, functions@, record),
    ensures
        match result {
            Ok(_) => functions_updated(remove_proving_key, insert_verifying_key, functions@)
                && call_ensures(insert_verifying_key, (record,), Ok::<(), E>(())),
            Err(error) => {
                ||| update_failed(remove_proving_key, insert_verifying_key, functions@, error)
                ||| functions_updated(remove_proving_key, insert_verifying_key, functions@)
                    && call_ensures(insert_verifying_key, (record,), Err::<(), E>(error))
            },
        },
{
    let mut i: usize = 0;
    while i < functions.len()
        invariant
            i <= functions@.len(),
            may_update_keys(remove_proving_key, insert_verifying_key, functions@, record),
            forall|j: int|
                0 <= j < i ==> function_updated(
                    remove_proving_key,
                    insert_verifying_key,
                    #[trigger] functions@[j],
                ),
        decreases functions@.len() - i,
    {
        let function = functions[i];
        proof {
            let earlier = functions@.take(i as int);
            assert forall|j: int| 0 <= j < earlier.len() implies function_updated(
                remove_proving_key,
                insert_verifying_key,
                #[trigger] earlier[j],
            ) by {
                assert(earlier[j] == functions@[j]);
            }
            assert(functions_updated(remove_proving_key, insert_verifying_key, earlier));
            assert(function == functions@[i as int]);
        }
        match remove_proving_key(function) {
            Ok(unit) => {
                assert(unit == ());
            },
            Err(error) => {
                assert(function_failed(
                    remove_proving_key,
                    insert_verifying_key,
                    functions@[i as int],
                    error,
                ));
                assert(update_failed(
                    remove_proving_key,
                    insert_verifying_key,
                    functions@,
                    error,
                ));
                return Err(error);
            },
        }
        match insert_verifying_key(function) {
            Ok(unit) => {
                assert(unit == ());
            },
            Err(error) => {
                assert(function_failed(
                    remove_proving_key,
                    insert_verifying_key,
                    functions@[i as int],
                    error,
                ));
                assert(update_failed(
                    remove_proving_key,
                    insert_verifying_key,
                    functions@,
                    error,
                ));
                return Err(error);
            },
        }
        i = i + 1;
    }
    match insert_verifying_key(record) {
        Ok(unit) => {
            assert(unit == ());
            Ok(())
        },
        Err(error) => Err(error),
    }
}

/// Why there is no key.
#[derive(Debug)]
pub enum KeyError<E> {
    /// The stack of the program could not be retrieved.
    Process(ProcessError),
    /// The stack has no such key, or could not take or make it.
    Stack(E),
}

/// The stack of a program was asked about a name; or there is no such program.
pub open spec fn asked_of_stack<K, E, Ask: FnOnce(&Stack, u64) -> Result<K, E>>(
    process: Process,
    program_id: u64,
    name: u64,
    ask: Ask,
    result: Result<K, KeyError<E>>,
) -> bool {
    match process.stack_of(program_id) {
        Some(stack) => match result {
            Ok(key) => call_ensures(ask, (&stack, name), Ok::<K, E>(key)),
            Err(KeyError::Stack(error)) => call_ensures(
                ask,
                (&stack, name),
                Err::<K, E>(error),
            ),
            Err(KeyError::Process(_)) => false,
        },
        None => result == Err::<K, KeyError<E>>(
            KeyError::Process(ProcessError::ProgramDoesNotExist { program_id }),
        ),
    }
}

impl Process {
    /// Returns the proving key for the given program ID and function name.
    pub fn get_proving_key<K, E, Get: FnOnce(&Stack, u64) -> Result<K, E>>(
        &self,
        program_id: u64,
        function_name: u64,
        get: Get,
    ) -> (result: Result<K, KeyError<E>>)
        requires
            self.wf(),
            self.stack_of(program_id) matches Some(stack) ==> call_requires(
                get,
                (&stack, function_name),
            ),
        ensures
            asked_of_stack(*self, program_id, function_name, get, result),
    {
        match self.get_stack(program_id) {
            Ok(stack) => match get(stack, function_name) {
                Ok(key) => Ok(key),
                Err(error) => Err(KeyError::Stack(error)),
            },
            Err(error) => Err(KeyError::Process(error)),
        }
    }

    /// Returns the verifying key for the given program ID and function name.
    pub fn get_verifying_key<K, E, Get: FnOnce(&Stack, u64) -> Result<K, E>>(
        &self,
        program_id: u64,
        function_name: u64,
        get: Get,
    ) -> (result: Result<K, KeyError<E>>)
        requires
            self.wf(),
            self.stack_of(program_id) matches Some(stack) ==> call_requires(
                get,
                (&stack, function_name),
            ),
        ensures
            asked_of_stack(*self, program_id, function_name, get, result),
    {
        match self.get_stack(program_id) {
            Ok(stack) => match get(stack, function_name) {
                Ok(key) => Ok(key),
                Err(error) => Err(KeyError::Stack(error)),
            },
            Err(error) => Err(KeyError::Process(error)),
        }
    }

    /// Inserts the given proving key, for the given program ID and function name.
    pub fn insert_proving_key<K, E, Insert: FnOnce(&Stack, u64, K) -> Result<(), E>>(
        &self,
        program_id: u64,
        function_name: u64,
        key: K,
        insert: Insert,
    ) -> (result: Result<(), KeyError<E>>)
        requires
            self.wf(),
            self.stack_of(program_id) matches Some(stack) ==> call_requires(
                insert,
                (&stack, function_name, key),
            ),
        ensures
            match self.stack_of(program_id) {
                Some(stack) => match result {
                    Ok(_) => call_ensures(insert, (&stack, function_name, key), Ok::<(), E>(())),
                    Err(KeyError::Stack(error)) => call_ensures(
                        insert,
                        (&stack, function_name, key),
                        Err::<(), E>(error),
                    ),
                    Err(KeyError::Process(_)) => false,
                },
                None => result == Err::<(), KeyError<E>>(
                    KeyError::Process(ProcessError::ProgramDoesNotExist { program_id }),
                ),
            },
    {
        match self.get_stack(program_id) {
            Ok(stack) => match insert(stack, function_name, key) {
                Ok(unit) => {
                    assert(unit == ());
                    Ok(())
                },
                Err(error) => Err(KeyError::Stack(error)),
            },
            Err(error) => Err(KeyError::Process(error)),
        }
    }

    /// Removes the proving key for the given program ID and function name.
    pub fn remove_proving_key<Remove: FnOnce(&Stack, u64)>(
        &self,
        program_id: u64,
        function_name: u64,
        remove: Remove,
    ) -> (result: Result<(), ProcessError>)
        requires
            self.wf(),
            self.stack_of(program_id) matches Some(stack) ==> call_requires(
                remove,
                (&stack, function_name),
            ),
        ensures
            match self.stack_of(program_id) {
                Some(stack) => result is Ok && call_ensures(remove, (&stack, function_name), ()),
                None => result == Err::<(), _>(ProcessError::ProgramDoesNotExist { program_id }),
            },
    {
        match self.get_stack(program_id) {
            Ok(stack) => {
                remove(stack, function_name);
                Ok(())
            },
            Err(error) => Err(error),
        }
    }

    /// Inserts the given verifying key, for the given program ID and function name.
    pub fn insert_verifying_key<K, E, Insert: FnOnce(&Stack, u64, K) -> Result<(), E>>(
        &self,
        program_id: u64,
        function_name: u64,
        key: K,
        insert: Insert,
    ) -> (result: Result<(), KeyError<E>>)
        requires
            self.wf(),
            self.stack_of(program_id) matches Some(stack) ==> call_requires(
                insert,
                (&stack, function_name, key),
            ),
        ensures
            match self.stack_of(program_id) {
                Some(stack) => match result {
                    Ok(_) => call_ensures(insert, (&stack, function_name, key), Ok::<(), E>(())),
                    Err(KeyError::Stack(error)) => call_ensures(
                        insert,
                        (&stack, function_name, key),
                        Err::<(), E>(error),
                    ),
                    Err(KeyError::Process(_)) => false,
                },
                None => result == Err::<(), KeyError<E>>(
                    KeyError::Process(ProcessError::ProgramDoesNotExist { program_id }),
                ),
            },
    {
        match self.get_stack(program_id) {
            Ok(stack) => match insert(stack, function_name, key) {
                Ok(unit) => {
                    assert(unit == ());
                    Ok(())
                },
                Err(error) => Err(KeyError::Stack(error)),
            },
            Err(error) => Err(KeyError::Process(error)),
        }
    }

    /// Removes the verifying key for the given program ID and function name.
    pub fn remove_verifying_key<Remove: FnOnce(&Stack, u64)>(
        &self,
        program_id: u64,
        function_name: u64,
        remove: Remove,
    ) -> (result: Result<(), ProcessError>)
        requires
            self.wf(),
            self.stack_of(program_id) matches Some(stack) ==> call_requires(
                remove,
                (&stack, function_name),
            ),
        ensures
            match self.stack_of(program_id) {
                Some(stack) => result is Ok && call_ensures(remove, (&stack, function_name), ()),
                None => result == Err::<(), _>(ProcessError::ProgramDoesNotExist { program_id }),
            },
    {
        match self.get_stack(program_id) {
            Ok(stack) => {
                remove(stack, function_name);
                Ok(())
            },
            Err(error) => Err(error),
        }
    }

    /// Synthesizes the proving and verifying key for the given program ID and function name.
    pub fn synthesize_key<E, Synthesize: FnOnce(&Stack, u64) -> Result<(), E>>(
        &self,
        program_id: u64,
        function_name: u64,
        synthesize: Synthesize,
    ) -> (result: Result<(), KeyError<E>>)
        requires
            self.wf(),
            self.stack_of(program_id) matches Some(stack) ==> call_requires(
                synthesize,
                (&stack, function_name),
            ),
        ensures
            asked_of_stack(*self, program_id, function_name, synthesize, result),
    {
        match self.get_stack(program_id) {
            Ok(stack) => match synthesize(stack, function_name) {
                Ok(unit) => {
                    assert(unit == ());
                    Ok(())
                },
                Err(error) => Err(KeyError::Stack(error)),
            },
            Err(error) => Err(KeyError::Process(error)),
        }
    }

    /// Synthesizes the translation key for the given record name.
    pub fn synthesize_translation_key<E, Synthesize: FnOnce(&Stack, u64) -> Result<(), E>>(
        &self,
        program_id: u64,
        record_name: u64,
        synthesize: Synthesize,
    ) -> (result: Result<(), KeyError<E>>)
        requires
            self.wf(),
            self.stack_of(program_id) matches Some(stack) ==> call_requires(
                synthesize,
                (&stack, record_name),
            ),
        ensures
            asked_of_stack(*self, program_id, record_name, synthesize, result),
    {
        match self.get_stack(program_id) {
            Ok(stack) => match synthesize(stack, record_name) {
                Ok(unit) => {
                    assert(unit == ());
                    Ok(())
                },
                Err(error) => Err(KeyError::Stack(error)),
            },
            Err(error) => Err(KeyError::Process(error)),
        }
    }
}

/// When the keys of functions were made, that of each of them was.
pub proof fn law_every_key_is_made<E, Make: Fn(u64) -> Result<(), E>>(
    make_key: Make,
    functions: Seq<u64>,
    function: u64,
)
    requires
        keys_made(make_key, functions),
        functions.contains(function),
    ensures
        call_ensures(make_key, (function,), Ok::<(), E>(())),
{
    let i = choose|i: int| 0 <= i < functions.len() && functions[i] == function;
    assert(functions[i] == function);
}

/// Making the keys fails only at one of the functions, with the error of making its key, once those of
/// all functions before it were made.
pub proof fn law_keys_fail_at_a_function<E, Make: Fn(u64) -> Result<(), E>>(
    make_key: Make,
    functions: Seq<u64>,
    error: E,
)
    requires
        key_failed(make_key, functions, error),
    ensures
        exists|i: int|
            {
                &&& 0 <= i < functions.len()
                &&& call_ensures(make_key, (#[trigger] functions[i],), Err::<(), E>(error))
                &&& forall|j: int|
                    0 <= j < i ==> call_ensures(
                        make_key,
                        (#[trigger] functions[j],),
                        Ok::<(), E>(()),
                    )
            },
{
    let i = choose|i: int|
        0 <= i < functions.len() && call_ensures(
            make_key,
            (#[trigger] functions[i],),
            Err::<(), E>(error),
        ) && keys_made(make_key, functions.take(i));
    assert forall|j: int| 0 <= j < i implies call_ensures(
        make_key,
        (#[trigger] functions[j],),
        Ok::<(), E>(()),
    ) by {
        assert(functions.take(i)[j] == functions[j]);
    }
    assert(functions[i] == functions[i]);
}

/// When the keys of functions were updated, the proving key of each was removed and its verifying key
/// inserted.
pub proof fn law_every_function_is_updated<
    E,
    Remove: Fn(u64) -> Result<(), E>,
    Insert: Fn(u64) -> Result<(), E>,
>(
    remove_proving_key: Remove,
    insert_verifying_key: Insert,
    functions: Seq<u64>,
    function: u64,
)
    requires
        functions_updated(remove_proving_key, insert_verifying_key, functions),
        functions.contains(function),
    ensures
        call_ensures(remove_proving_key, (function,), Ok::<(), E>(())),
        call_ensures(insert_verifying_key, (function,), Ok::<(), E>(())),
{
    let i = choose|i: int| 0 <= i < functions.len() && functions[i] == function;
    assert(function_updated(remove_proving_key, insert_verifying_key, functions[i]));
}

/// Updating the keys fails only at one of the functions, with the error of removing its proving key or,
/// once that was removed, of inserting its verifying key.
pub proof fn law_update_fails_at_a_function<
    E,
    Remove: Fn(u64) -> Result<(), E>,
    Insert: Fn(u64) -> Result<(), E>,
>(
    remove_proving_key: Remove,
    insert_verifying_key: Insert,
    functions: Seq<u64>,
    error: E,
)
    requires
        update_failed(remove_proving_key, insert_verifying_key, functions, error),
    ensures
        exists|function: u64| #[trigger]
            functions.contains(function) && (call_ensures(
                remove_proving_key,
                (function,),
                Err::<(), E>(error),
            ) || (call_ensures(remove_proving_key, (function,), Ok::<(), E>(())) && call_ensures(
                insert_verifying_key,
                (function,),
                Err::<(), E>(error),
            ))),
{
    let i = choose|i: int|
        0 <= i < functions.len() && function_failed(
            remove_proving_key,
            insert_verifying_key,
            #[trigger] functions[i],
            error,
        ) && functions_updated(remove_proving_key, insert_verifying_key, functions.take(i));
    assert(functions.contains(functions[i]));
}

/// What is asked of the stack of a program is asked of the stack that a lookup of it finds, under the
/// given name; and a program that does not exist is refused without asking.
pub proof fn law_keys_are_asked_of_the_stack_found<
    K,
    E,
    Ask: FnOnce(&Stack, u64) -> Result<K, E>,
>(process: Process, program_id: u64, name: u64, ask: Ask, result: Result<K, KeyError<E>>)
    requires
        asked_of_stack(process, program_id, name, ask, result),
    ensures
        process.stack_of(program_id) is None <==> result matches Err(KeyError::Process(_)),
        result matches Err(KeyError::Process(error)) ==> error == (
        ProcessError::ProgramDoesNotExist { program_id }),
        result matches Ok(key) ==> call_ensures(
            ask,
            (&process.stack_of(program_id)->0, name),
            Ok::<K, E>(key),
        ),
        result matches Err(KeyError::Stack(error)) ==> call_ensures(
            ask,
            (&process.stack_of(program_id)->0, name),
            Err::<K, E>(error),
        ),
{
}

} // verus!
