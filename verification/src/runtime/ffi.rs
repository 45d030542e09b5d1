//! The bridge to other languages.

use vstd::prelude::*;
use crate::interop::sql::sql_type_for;
use crate::runtime::value::{deep_copies, value_views, BridgeError, Value, ValueView};
use crate::text::{str_eq, texts};

verus! {

/// The languages that the bridge has an adapter for.
pub open spec fn has_adapter(language: Seq<char>) -> bool {
    language == "rust"@ || language == "c"@ || language == "python"@ || language == "js"@
        || language == "ts"@ || language == "sql"@
}

/// Whether values can cross into a language: into SQL only those that an
/// SQL type holds, into the other languages all.
pub open spec fn can_marshal(language: Seq<char>, args: Seq<ValueView>) -> bool {
    language == "sql"@ ==> forall|i: int| 0 <= i < args.len() ==> sql_type_for(args[i]) is Some
}

/// A call that is ready to be handed to the runtime of its language. The
/// arguments are copies.
#[derive(Debug, PartialEq)]
pub struct Request {
    pub language: String,
    pub function_name: String,
    pub args: Vec<Value>,
}

/// What the runtime of the other language made of a call.
#[derive(Debug, PartialEq)]
pub enum Reply {
    Returned(Value),
    /// The runtime raised a fault; this is its message.
    Raised(String),
    /// The runtime did not answer in the time that the caller set.
    TimedOut,
}

/// The registry with an adapter for `language`: unchanged if it has one,
/// and else with the language behind the others.
pub open spec fn with_adapter(registry: Seq<Seq<char>>, language: Seq<char>) -> Seq<Seq<char>> {
    if registry.contains(language) {
        registry
    } else {
        registry.push(language)
    }
}

/// The entry points by which compiled units reach other languages, and the
/// registry of the adapters that were set up so far.
pub struct FfiBridge {
    adapters: Vec<String>,
}

impl View for FfiBridge {
    type V = Seq<Seq<char>>;

    /// The languages that have an adapter, in the order in which they were
    /// first called.
    closed spec fn view(&self) -> Seq<Seq<char>> {
        texts(self.adapters@)
    }
}

impl FfiBridge {
    /// A bridge with no adapter set up yet.
    pub fn new() -> (bridge: FfiBridge)
        ensures
            bridge@ == Seq::<Seq<char>>::empty(),
    {
        let bridge = FfiBridge { adapters: Vec::new() };
        assert(bridge@ =~= Seq::<Seq<char>>::empty());
        bridge
    }

    /// The languages that have an adapter, in the order in which they were
    /// first called.
    pub fn registered(&self) -> (adapters: &[String])
        ensures
            texts(adapters@) == self@,
    {
        self.adapters.as_slice()
    }

    /// Prepares a call of `function_name` in `language`. A language
    /// without adapter is refused, and values that cannot cross into the
    /// language are a marshal failure; neither touches the registry. Else
    /// the adapter of the language is set up, if it was not before, and the
    /// request carries copies of the arguments.
    pub fn call(&mut self, language: &str, function_name: &str, args: &[Value]) -> (result: Result<
        Request,
        BridgeError,
    >)
        ensures
            match result {
                Ok(request) => {
                    &&& has_adapter(language@)
                    &&& can_marshal(language@, value_views(args@))
                    &&& request.language@ == language@
                    &&& request.function_name@ == function_name@
                    &&& value_views(request.args@) == value_views(args@)
                    &&& final(self)@ == with_adapter(old(self)@, language@)
                },
                Err(BridgeError::UnregisteredLanguage(tag)) => !has_adapter(language@) && tag@
                    == language@ && final(self)@ == old(self)@,
                Err(BridgeError::MarshalFailure(what)) => has_adapter(language@) && !can_marshal(
                    language@,
                    value_views(args@),
                ) && what@ == language@ && final(self)@ == old(self)@,
                Err(_) => false,
            },
    {
        let known = str_eq(language, "rust") || str_eq(language, "c") || str_eq(language, "python")
            || str_eq(language, "js") || str_eq(language, "ts") || str_eq(language, "sql");
        if !known {
            return Err(BridgeError::UnregisteredLanguage(String::from_str(language)));
        }
        if str_eq(language, "sql") {
            let mut i: usize = 0;
            while i < args.len()
                invariant
                    i <= args.len(),
                    language@ == "sql"@,
                    self.adapters == old(self).adapters,
                    forall|j: int| 0 <= j < i ==> sql_type_for(value_views(args@)[j]) is Some,
                decreases args.len() - i,
            {
                assert(value_views(args@)[i as int] == args@[i as int]@);
                match &args[i] {
                    Value::List(_) | Value::Dict(_) | Value::Unit => {
                        assert(sql_type_for(value_views(args@)[i as int]) is None);
                        return Err(BridgeError::MarshalFailure(String::from_str(language)));
                    },
                    _ => {},
                }
                i += 1;
            }
        }
        let mut present = false;
        let mut i: usize = 0;
        while i < self.adapters.len()
            invariant
                i <= self.adapters.len(),
                self.adapters == old(self).adapters,
                present == exists|j: int| 0 <= j < i && texts(self.adapters@)[j] == language@,
            decreases self.adapters.len() - i,
        {
            if str_eq(self.adapters[i].as_str(), language) {
                assert(texts(self.adapters@)[i as int] == language@);
                present = true;
            }
            i += 1;
        }
        if !present {
            let ghost before = texts(self.adapters@);
            self.adapters.push(String::from_str(language));
            assert(texts(self.adapters@) =~= before.push(language@));
        }
        Ok(
            Request {
                language: String::from_str(language),
                function_name: String::from_str(function_name),
                args: deep_copies(args),
            },
        )
    }

    /// Turns what the runtime made of a call into the result of the call:
    /// the value that came back, a remote failure with the message of the
    /// fault, or a timeout.
    pub fn complete(&self, reply: Reply) -> (result: Result<Value, BridgeError>)
        ensures
            match reply {
                Reply::Returned(value) => result matches Ok(returned) && returned@ == value@,
                Reply::Raised(message) => result matches Err(BridgeError::RemoteFailure(text))
                    && text@ == message@,
                Reply::TimedOut => result == Err::<Value, BridgeError>(BridgeError::Timeout),
            },
    {
        match reply {
            Reply::Returned(value) => Ok(value),
            Reply::Raised(message) => Err(BridgeError::RemoteFailure(message)),
            Reply::TimedOut => Err(BridgeError::Timeout),
        }
    }

    /// Calls a Rust function. No Rust runtime is attached: the answer is
    /// the empty text.
    pub fn call_rust(&self, _function: &str, _args: Vec<String>) -> (result: Result<
        String,
        String,
    >)
        ensures
            result matches Ok(answer) && answer@ == Seq::<char>::empty(),
    {
        Ok(String::new())
    }

    /// Calls a C function. No C runtime is attached: the answer is the
    /// empty text.
    pub fn call_c(&self, _function: &str, _args: Vec<String>) -> (result: Result<String, String>)
        ensures
            result matches Ok(answer) && answer@ == Seq::<char>::empty(),
    {
        Ok(String::new())
    }

    /// Calls a Python function. No Python runtime is attached: the answer
    /// is the empty text.
    pub fn call_python(&self, _function: &str, _args: Vec<String>) -> (result: Result<
        String,
        String,
    >)
        ensures
            result matches Ok(answer) && answer@ == Seq::<char>::empty(),
    {
        Ok(String::new())
    }

    /// Calls a JavaScript function. No JavaScript runtime is attached: the
    /// answer is the empty text.
    pub fn call_js(&self, _function: &str, _args: Vec<String>) -> (result: Result<String, String>)
        ensures
            result matches Ok(answer) && answer@ == Seq::<char>::empty(),
    {
        Ok(String::new())
    }

    /// Executes an SQL query. No database is attached: the answer is the
    /// empty text.
    pub fn execute_sql(&self, _query: &str) -> (result: Result<String, String>)
        ensures
            result matches Ok(answer) && answer@ == Seq::<char>::empty(),
    {
        Ok(String::new())
    }
}

} // verus!
