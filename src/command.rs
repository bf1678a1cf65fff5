use vstd::prelude::*;
use vstd::string::*;

verus! {

/// The semantic type of a value that crosses the boundary.
#[derive(Clone, Copy, Debug, PartialEq, Eq, Structural)]
pub enum ValueType {
    Str,
    Int,
    Bool,
}

/// A value handed to or returned by a command.
#[derive(Debug)]
pub enum Value {
    Str(String),
    Int(i64),
    Bool(bool),
}

/// The mathematical model of a [`Value`].
pub ghost enum ValueView {
    Str(Seq<char>),
    Int(int),
    Bool(bool),
}

impl View for Value {
    type V = ValueView;

    open spec fn view(&self) -> ValueView {
        match self {
            Value::Str(s) => ValueView::Str(s@),
            Value::Int(i) => ValueView::Int(*i as int),
            Value::Bool(b) => ValueView::Bool(*b),
        }
    }
}

pub open spec fn type_of(v: ValueView) -> ValueType {
    match v {
        ValueView::Str(_) => ValueType::Str,
        ValueView::Int(_) => ValueType::Int,
        ValueView::Bool(_) => ValueType::Bool,
    }
}

impl Value {
    pub fn value_type(&self) -> (r: ValueType)
        ensures
            r == type_of(self@),
    {
        match self {
            Value::Str(_) => ValueType::Str,
            Value::Int(_) => ValueType::Int,
            Value::Bool(_) => ValueType::Bool,
        }
    }

    /// A copy of the value.
    pub fn duplicate(&self) -> (r: Value)
        ensures
            r@ == self@,
    {
        match self {
            Value::Str(s) => Value::Str(s.clone()),
            Value::Int(i) => Value::Int(*i),
            Value::Bool(b) => Value::Bool(*b),
        }
    }
}

/// One supplied argument: a parameter name and its value.
#[derive(Debug)]
pub struct Arg {
    pub name: String,
    pub value: Value,
}

impl View for Arg {
    type V = (Seq<char>, ValueView);

    open spec fn view(&self) -> (Seq<char>, ValueView) {
        (self.name@, self.value@)
    }
}

impl Arg {
    pub fn new(name: &str, value: Value) -> (r: Arg)
        ensures
            r@ == (name@, value@),
    {
        Arg { name: String::from_str(name), value }
    }
}

/// The model of an argument list.
pub open spec fn args_view(args: Seq<Arg>) -> Seq<(Seq<char>, ValueView)> {
    args.map_values(|a: Arg| a@)
}

/// The value supplied for parameter `n`; where the name is given more than
/// once, the last one counts.
pub open spec fn arg_of(args: Seq<(Seq<char>, ValueView)>, n: Seq<char>) -> Option<ValueView>
    decreases args.len(),
{
    if args.len() == 0 {
        None
    } else if args.last().0 == n {
        Some(args.last().1)
    } else {
        arg_of(args.drop_last(), n)
    }
}

/// Finds the value supplied for parameter `n`.
pub fn find_arg<'a>(args: &'a Vec<Arg>, n: &str) -> (r: Option<&'a Value>)
    ensures
        match r {
            Some(v) => arg_of(args_view(args@), n@) == Some(v@),
            None => arg_of(args_view(args@), n@) is None,
        },
{
    let key = String::from_str(n);
    let mut i: usize = args.len();
    proof {
        assert(args@.subrange(0, i as int) =~= args@);
    }
    while i > 0
        invariant
            i <= args.len(),
            key@ == n@,
            arg_of(args_view(args@), n@) == arg_of(args_view(args@.subrange(0, i as int)), n@),
        decreases i,
    {
        let a = &args[i - 1];
        proof {
            let s = args_view(args@.subrange(0, i as int));
            assert(s.last() == a@);
            assert(s.drop_last() =~= args_view(args@.subrange(0, i - 1)));
        }
        if a.name.eq(&key) {
            return Some(&a.value);
        }
        i = i - 1;
    }
    proof {
        assert(args_view(args@.subrange(0, 0)) =~= Seq::empty());
    }
    None
}

/// A handler known to this bridge.
#[derive(Clone, Copy, Debug, PartialEq, Eq, Structural)]
pub enum Handler {
    /// `greet(name: string) -> string`
    Greet,
}

/// A declared parameter: its name and expected type.
#[derive(Debug)]
pub struct Param {
    pub name: String,
    pub ty: ValueType,
}

pub open spec fn greeting(name: Seq<char>) -> Seq<char> {
    "Hello, "@ + name + "! Tauri backend is working."@
}

/// Greets `name`, confirming that the channel to the backend is alive.
pub fn greet(name: &str) -> (r: String)
    ensures
        r@ == greeting(name@),
{
    let mut s = String::from_str("Hello, ");
    s.append(name);
    s.append("! Tauri backend is working.");
    s
}

impl Handler {
    /// The declared parameters, in order.
    pub open spec fn spec_params(self) -> Seq<(Seq<char>, ValueType)> {
        match self {
            Handler::Greet => seq![("name"@, ValueType::Str)],
        }
    }

    /// The declared result type.
    pub open spec fn result_type(self) -> ValueType {
        match self {
            Handler::Greet => ValueType::Str,
        }
    }

    /// Whether `args` supplies every declared parameter with its type.
    pub open spec fn accepts(self, args: Seq<(Seq<char>, ValueView)>) -> bool {
        forall|k: int|
            0 <= k < self.spec_params().len() ==> {
                let p = #[trigger] self.spec_params()[k];
                match arg_of(args, p.0) {
                    Some(v) => type_of(v) == p.1,
                    None => false,
                }
            }
    }

    /// What invoking the handler on `args` gives.
    pub open spec fn outcome(self, args: Seq<(Seq<char>, ValueView)>) -> Result<
        ValueView,
        (ErrorKind, Seq<char>),
    > {
        match self {
            Handler::Greet => match arg_of(args, "name"@) {
                Some(ValueView::Str(s)) => Ok(ValueView::Str(greeting(s))),
                _ => Err((ErrorKind::InvalidArgument, "name"@)),
            },
        }
    }

    pub fn params(&self) -> (r: Vec<Param>)
        ensures
            r@.len() == self.spec_params().len(),
            forall|k: int|
                0 <= k < r@.len() ==> (#[trigger] r@[k]).name@ == self.spec_params()[k].0
                    && r@[k].ty == self.spec_params()[k].1,
    {
        match self {
            Handler::Greet => {
                let mut v: Vec<Param> = Vec::new();
                v.push(Param { name: String::from_str("name"), ty: ValueType::Str });
                v
            },
        }
    }

    /// Validates `args` against the declared parameters and runs the handler.
    pub fn invoke(&self, args: &Vec<Arg>) -> (r: Result<Value, CommandError>)
        ensures
            result_view(&r) == self.outcome(args_view(args@)),
    {
        match self {
            Handler::Greet => match find_arg(args, "name") {
                Some(Value::Str(s)) => Ok(Value::Str(greet(s.as_str()))),
                _ => Err(CommandError::new(ErrorKind::InvalidArgument, "name")),
            },
        }
    }
}

/// The kind of a structured failure.
#[derive(Clone, Copy, Debug, PartialEq, Eq, Structural)]
pub enum ErrorKind {
    /// No command is registered under the name.
    UnknownCommand,
    /// An argument is missing or has the wrong type.
    InvalidArgument,
    /// The handler itself failed.
    HandlerFailed,
    /// A command of that name is registered already.
    DuplicateCommand,
}

/// A structured failure `{kind, message}`; the message names the command or
/// the parameter at fault.
#[derive(Debug)]
pub struct CommandError {
    pub kind: ErrorKind,
    pub message: String,
}

impl View for CommandError {
    type V = (ErrorKind, Seq<char>);

    open spec fn view(&self) -> (ErrorKind, Seq<char>) {
        (self.kind, self.message@)
    }
}

impl CommandError {
    pub fn new(kind: ErrorKind, message: &str) -> (r: CommandError)
        ensures
            r@ == (kind, message@),
    {
        CommandError { kind, message: String::from_str(message) }
    }
}

pub open spec fn result_view(r: &Result<Value, CommandError>) -> Result<ValueView, (ErrorKind, Seq<char>)> {
    match r {
        Ok(v) => Ok(v@),
        Err(e) => Err(e@),
    }
}

} // verus!
