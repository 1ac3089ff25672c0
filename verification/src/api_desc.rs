//! The per-service schema model: the action list and the state-variable
//! table of one service description document, argument-type resolution
//! through the table, and the synthesis of one response descriptor and one
//! request descriptor per action.

use vstd::prelude::*;
use crate::api_desc_dir::SpecVersion;
use crate::api_desc_dir::SpecVersionV;
use crate::error::GenError;
use crate::error::GenErrorV;
use crate::normalize::rustify;
use crate::normalize::rustify_exec;
use crate::output::OutputFiles;
use crate::output::OutputFilesV;
use crate::output::ParameterAndType;
use crate::output::params_sig;
use crate::output::ParameterAndTypeV;
use crate::output::RequestFile;
use crate::output::RequestFileV;
use crate::output::RequestFunction;
use crate::output::RequestFunctionV;
use crate::output::ResponseFile;
use crate::output::ResponseFileV;
use crate::text::str_eq;
use crate::text::str_views;
use crate::text::strip_seps_string;
use crate::text::split_colon;

verus! {

/// Spec view of `Argument`.
pub struct ArgumentV {
    pub name: Seq<char>,
    pub direction: Seq<char>,
    pub related_state_variable: Seq<char>,
}

/// One argument of an action: its wire name, its direction (`in` or `out`),
/// and the state variable it takes its type from.
#[derive(Debug)]
pub struct Argument {
    pub name: String,
    pub direction: String,
    pub related_state_variable: String,
}

impl View for Argument {
    type V = ArgumentV;

    open spec fn view(&self) -> ArgumentV {
        ArgumentV {
            name: self.name@,
            direction: self.direction@,
            related_state_variable: self.related_state_variable@,
        }
    }
}

/// The argument list of one action.
#[derive(Debug)]
pub struct ArgumentList {
    pub argument: Vec<Argument>,
}

/// Spec view of `Action`.
pub struct ActionV {
    pub name: Seq<char>,
    pub arguments: Seq<ArgumentV>,
}

/// One remote action: its wire name and its ordered arguments.
#[derive(Debug)]
pub struct Action {
    pub name: String,
    pub argument_list: ArgumentList,
}

impl View for Action {
    type V = ActionV;

    open spec fn view(&self) -> ActionV {
        ActionV {
            name: self.name@,
            arguments: self.argument_list.argument@.map_values(|a: Argument| a@),
        }
    }
}

/// The action list of one service schema.
#[derive(Debug)]
pub struct ActionList {
    pub action: Vec<Action>,
}

/// The optional enumeration of values a state variable may take.
#[derive(Debug)]
pub struct AllowedValueList {
    pub allowed_value: Vec<String>,
}

/// Spec view of `StateVariable`.
pub struct StateVariableV {
    pub name: Seq<char>,
    pub data_type: Seq<char>,
    pub default_value: Seq<char>,
    pub allowed_values: Seq<Seq<char>>,
}

/// One declared state variable: its name, its wire data type, its default
/// value and its allowed values.
#[derive(Debug)]
pub struct StateVariable {
    pub name: String,
    pub data_type: String,
    pub default_value: String,
    pub allowed_value_list: AllowedValueList,
}

impl View for StateVariable {
    type V = StateVariableV;

    open spec fn view(&self) -> StateVariableV {
        StateVariableV {
            name: self.name@,
            data_type: self.data_type@,
            default_value: self.default_value@,
            allowed_values: crate::text::str_views(self.allowed_value_list.allowed_value@),
        }
    }
}

/// The state-variable table of one service schema.
#[derive(Debug)]
pub struct ServiceStateTable {
    pub state_variable: Vec<StateVariable>,
}

/// Spec view of `ApiDesc`.
pub struct ApiDescV {
    pub spec_version: SpecVersionV,
    pub actions: Seq<ActionV>,
    pub state_table: Seq<StateVariableV>,
}

/// One parsed service schema document: specification version, action list
/// and state-variable table. Built once per fetched document, never mutated.
#[derive(Debug)]
pub struct ApiDesc {
    pub spec_version: SpecVersion,
    pub action_list: ActionList,
    pub service_state_table: ServiceStateTable,
}

impl View for ApiDesc {
    type V = ApiDescV;

    open spec fn view(&self) -> ApiDescV {
        ApiDescV {
            spec_version: self.spec_version@,
            actions: self.action_list.action@.map_values(|a: Action| a@),
            state_table: self.service_state_table.state_variable@.map_values(
                |v: StateVariable| v@,
            ),
        }
    }
}

/// The fixed wire-type mapping table: the primitive type name for a declared
/// wire data type, or nothing for an unsupported one.
pub open spec fn wire_type_name(t: Seq<char>) -> Option<Seq<char>> {
    if t == "boolean"@ {
        Some("bool"@)
    } else if t == "ui1"@ || t == "ui2"@ || t == "ui4"@ {
        Some("u32"@)
    } else if t == "i1"@ || t == "i2"@ || t == "i4"@ {
        Some("i32"@)
    } else if t == "string"@ || t == "uuid"@ || t == "dateTime"@ {
        Some("String"@)
    } else {
        None
    }
}

/// The index of the first state variable named `name`, if any.
pub open spec fn find_state_var(table: Seq<StateVariableV>, name: Seq<char>) -> Option<int>
    decreases table.len(),
{
    if table.len() == 0 {
        None
    } else if table[0].name == name {
        Some(0int)
    } else {
        match find_state_var(table.skip(1), name) {
            Some(i) => Some(i + 1),
            None => None,
        }
    }
}

/// What `find_state_var` returns: the least index of a variable of that
/// name, or `None` when the table holds none.
pub proof fn lemma_find_state_var(table: Seq<StateVariableV>, name: Seq<char>)
    ensures
        match find_state_var(table, name) {
            None => forall|j: int| 0 <= j < table.len() ==> (#[trigger] table[j]).name != name,
            Some(i) => 0 <= i < table.len() && table[i].name == name && forall|j: int|
                0 <= j < i ==> (#[trigger] table[j]).name != name,
        },
    decreases table.len(),
{
    if table.len() > 0 && table[0].name != name {
        lemma_find_state_var(table.skip(1), name);
        match find_state_var(table.skip(1), name) {
            Some(i) => {
                assert(table[i + 1] == table.skip(1)[i]);
                assert forall|j: int| 0 <= j < i + 1 implies (#[trigger] table[j]).name != name by {
                    if j > 0 {
                        assert(table.skip(1)[j - 1].name != name);
                    }
                }
            },
            None => {
                assert forall|j: int| 0 <= j < table.len() implies (#[trigger] table[j]).name
                    != name by {
                    if j > 0 {
                        assert(table.skip(1)[j - 1].name != name);
                    }
                }
            },
        }
    }
}

/// The resolved primitive type of a state-variable reference: a missing name
/// is a schema inconsistency, a found variable of unsupported wire type
/// surfaces that literal type.
pub open spec fn resolve_type(table: Seq<StateVariableV>, name: Seq<char>) -> Result<
    Seq<char>,
    GenErrorV,
> {
    match find_state_var(table, name) {
        None => Err(GenErrorV::SchemaInconsistency(name)),
        Some(i) => match wire_type_name(table[i].data_type) {
            Some(t) => Ok(t),
            None => Err(GenErrorV::UnmappedType(table[i].data_type)),
        },
    }
}

/// Resolution fails exactly when no state variable shares the referenced
/// name, or the first variable of that name declares a wire type outside the
/// fixed mapping table.
pub proof fn lemma_resolve_fails_iff(table: Seq<StateVariableV>, name: Seq<char>)
    ensures
        resolve_type(table, name) is Err <==> (forall|j: int|
            0 <= j < table.len() ==> (#[trigger] table[j]).name != name) || (exists|i: int|
            0 <= i < table.len() && (#[trigger] table[i]).name == name && (forall|j: int|
                0 <= j < i ==> (#[trigger] table[j]).name != name) && wire_type_name(
                table[i].data_type,
            ) is None),
{
    lemma_find_state_var(table, name);
    match find_state_var(table, name) {
        None => {},
        Some(i) => {
            if wire_type_name(table[i].data_type) is None {
                assert(0 <= i < table.len() && table[i].name == name && (forall|j: int|
                    0 <= j < i ==> (#[trigger] table[j]).name != name) && wire_type_name(
                    table[i].data_type,
                ) is None);
            } else {
                assert forall|k: int|
                    0 <= k < table.len() && (#[trigger] table[k]).name == name && (forall|j: int|
                        0 <= j < k ==> (#[trigger] table[j]).name != name) implies !(wire_type_name(
                    table[k].data_type,
                ) is None) by {
                    if k < i {
                        assert(table[k].name != name);
                    } else if k > i {
                        assert(table[i].name != name);
                    }
                }
            }
        },
    }
}

proof fn lemma_find_state_var_shift(table: Seq<StateVariableV>, name: Seq<char>, i: int)
    requires
        0 <= i <= table.len(),
        forall|j: int| 0 <= j < i ==> (#[trigger] table[j]).name != name,
    ensures
        find_state_var(table, name) == match find_state_var(table.skip(i), name) {
            Some(k) => Some(k + i),
            None => None::<int>,
        },
    decreases i,
{
    if i > 0 {
        lemma_find_state_var_shift(table.skip(1), name, i - 1);
        assert(table.skip(1).skip(i - 1) =~= table.skip(i));
        assert forall|j: int| 0 <= j < i - 1 implies (#[trigger] table.skip(1)[j]).name != name by {
            assert(table[j + 1].name != name);
        }
    } else {
        assert(table.skip(0) =~= table);
    }
}

/// Whether an argument is an output of its action.
pub open spec fn is_out_arg(a: ArgumentV) -> bool {
    a.direction == "out"@
}

/// Whether an argument is an input of its action.
pub open spec fn is_in_arg(a: ArgumentV) -> bool {
    a.direction == "in"@
}

/// The first resolution error among `args`, in order; arguments of other
/// directions resolve nothing and cannot fail.
pub open spec fn first_arg_error(table: Seq<StateVariableV>, args: Seq<ArgumentV>) -> Option<
    GenErrorV,
>
    decreases args.len(),
{
    if args.len() == 0 {
        None
    } else if (is_out_arg(args[0]) || is_in_arg(args[0])) && resolve_type(
        table,
        args[0].related_state_variable,
    ) is Err {
        Some(resolve_type(table, args[0].related_state_variable)->Err_0)
    } else {
        first_arg_error(table, args.skip(1))
    }
}

/// The first resolution error among all arguments of `actions`, in order.
pub open spec fn first_action_error(table: Seq<StateVariableV>, actions: Seq<ActionV>) -> Option<
    GenErrorV,
>
    decreases actions.len(),
{
    if actions.len() == 0 {
        None
    } else {
        match first_arg_error(table, actions[0].arguments) {
            Some(e) => Some(e),
            None => first_action_error(table, actions.skip(1)),
        }
    }
}

/// The derive line every response struct starts with.
pub open spec fn derive_line() -> Seq<char> {
    "#[derive(Deserialize, Debug)]\n"@
}

/// The opening line of a response struct: the action name, stripped of
/// dashes and underscores, with the response suffix.
pub open spec fn struct_open_line(name: Seq<char>) -> Seq<char> {
    "pub struct "@ + crate::text::strip_seps(name) + "Response{\n"@
}

/// The decode-time tag line of a response field: the argument's wire name.
pub open spec fn tag_line(name: Seq<char>) -> Seq<char> {
    "\t#[serde(rename = \""@ + name + "\")]\n"@
}

/// The declaration line of a response field: the normalized argument name
/// and its resolved primitive type.
pub open spec fn field_line(name: Seq<char>, t: Seq<char>) -> Seq<char> {
    "\tpub "@ + rustify(name) + ": "@ + t + ",\n"@
}

/// The closing line of a response struct.
pub open spec fn close_line() -> Seq<char> {
    "}\n\n"@
}

/// The envelope-registry line of one action: its response struct name as an
/// acceptable decoding discriminant.
pub open spec fn ann_line(name: Seq<char>) -> Seq<char> {
    "\n\t#[serde(alias = \""@ + name + "Response\")]"@
}

/// The response-field lines of `args`: two lines per `out` argument, in
/// original order. Meaningful only when no argument fails to resolve.
pub open spec fn response_arg_lines(table: Seq<StateVariableV>, args: Seq<ArgumentV>) -> Seq<
    Seq<char>,
>
    decreases args.len(),
{
    if args.len() == 0 {
        Seq::empty()
    } else {
        let rest = response_arg_lines(table, args.skip(1));
        if is_out_arg(args[0]) {
            seq![
                tag_line(args[0].name),
                field_line(
                    args[0].name,
                    resolve_type(table, args[0].related_state_variable)->Ok_0,
                ),
            ] + rest
        } else {
            rest
        }
    }
}

/// The whole response-struct text pieces of one action.
pub open spec fn action_response_content(table: Seq<StateVariableV>, a: ActionV) -> Seq<Seq<char>> {
    seq![derive_line(), struct_open_line(a.name)] + response_arg_lines(table, a.arguments) + seq![
        close_line(),
    ]
}

/// The response-module content pieces of all actions, in order.
pub open spec fn actions_response_content(table: Seq<StateVariableV>, actions: Seq<ActionV>) -> Seq<
    Seq<char>,
>
    decreases actions.len(),
{
    if actions.len() == 0 {
        Seq::empty()
    } else {
        action_response_content(table, actions[0]) + actions_response_content(
            table,
            actions.skip(1),
        )
    }
}

/// The request parameters of `args`: one per `in` argument, in original
/// order. Meaningful only when no argument fails to resolve.
pub open spec fn request_params(table: Seq<StateVariableV>, args: Seq<ArgumentV>) -> Seq<
    ParameterAndTypeV,
>
    decreases args.len(),
{
    if args.len() == 0 {
        Seq::empty()
    } else {
        let rest = request_params(table, args.skip(1));
        if is_in_arg(args[0]) {
            seq![
                ParameterAndTypeV {
                    parameter_name: args[0].name,
                    parameter_name_rusty: rustify(args[0].name),
                    param_type: resolve_type(table, args[0].related_state_variable)->Ok_0,
                },
            ] + rest
        } else {
            rest
        }
    }
}

/// The request descriptor of one action within its service.
pub open spec fn request_function_for(
    table: Seq<StateVariableV>,
    a: ActionV,
    service_type: Seq<char>,
    control_url: Seq<char>,
) -> RequestFunctionV {
    RequestFunctionV {
        name: a.name,
        name_rusty: rustify(a.name),
        parameter: request_params(table, a.arguments),
        service_type: service_type,
        action_name: a.name,
        control_url: control_url,
    }
}

/// The request descriptors of all actions, in order.
pub open spec fn request_functions_for(
    table: Seq<StateVariableV>,
    actions: Seq<ActionV>,
    service_type: Seq<char>,
    control_url: Seq<char>,
) -> Seq<RequestFunctionV>
    decreases actions.len(),
{
    if actions.len() == 0 {
        Seq::empty()
    } else {
        seq![request_function_for(table, actions[0], service_type, control_url)]
            + request_functions_for(table, actions.skip(1), service_type, control_url)
    }
}

/// The envelope-registry lines of all actions, in order.
pub open spec fn actions_annotations(actions: Seq<ActionV>) -> Seq<Seq<char>>
    decreases actions.len(),
{
    if actions.len() == 0 {
        Seq::empty()
    } else {
        seq![ann_line(actions[0].name)] + actions_annotations(actions.skip(1))
    }
}

/// What one successful synthesis adds to the output aggregate: the
/// envelope-registry lines, one response module and one request module.
pub open spec fn fill_spec(
    o: OutputFilesV,
    api: ApiDescV,
    name: Seq<char>,
    control_url: Seq<char>,
    service_type: Seq<char>,
) -> OutputFilesV {
    OutputFilesV {
        annotation_string: o.annotation_string + actions_annotations(api.actions),
        response_files: o.response_files.push(
            ResponseFileV {
                name: rustify(name),
                content: actions_response_content(api.state_table, api.actions),
            },
        ),
        request_files: o.request_files.push(
            RequestFileV {
                name: rustify(name),
                request_functions: request_functions_for(
                    api.state_table,
                    api.actions,
                    service_type,
                    control_url,
                ),
            },
        ),
        response_output_folder: o.response_output_folder,
        request_output_folder: o.request_output_folder,
        prefix: o.prefix,
    }
}

/// What synthesizing one service yields: a malformed service type fails
/// before anything else, then the first resolution error, else the filled
/// aggregate.
pub open spec fn fill_result(
    o: OutputFilesV,
    api: ApiDescV,
    name: Seq<char>,
    control_url: Seq<char>,
    service_type: Seq<char>,
) -> Result<OutputFilesV, GenErrorV> {
    if crate::text::segments(service_type).len() < 4 {
        Err(GenErrorV::MalformedServiceType(service_type))
    } else {
        match first_action_error(api.state_table, api.actions) {
            Some(e) => Err(e),
            None => Ok(fill_spec(o, api, name, control_url, service_type)),
        }
    }
}

/// The wire names of the `out` arguments of `args`, in original order.
pub open spec fn out_arg_names(args: Seq<ArgumentV>) -> Seq<Seq<char>>
    decreases args.len(),
{
    if args.len() == 0 {
        Seq::empty()
    } else {
        let rest = out_arg_names(args.skip(1));
        if is_out_arg(args[0]) {
            seq![args[0].name] + rest
        } else {
            rest
        }
    }
}

/// The decode-time tags of the response-field lines of `args`: every other
/// line is a tag line, and the tags are exactly the wire names of the `out`
/// arguments, in original order.
pub proof fn lemma_response_tags_are_out_names(table: Seq<StateVariableV>, args: Seq<ArgumentV>)
    ensures
        response_arg_lines(table, args).len() == 2 * out_arg_names(args).len(),
        forall|k: int|
            0 <= k < out_arg_names(args).len() ==> response_arg_lines(table, args)[2 * k]
                == tag_line(#[trigger] out_arg_names(args)[k]),
    decreases args.len(),
{
    if args.len() > 0 {
        lemma_response_tags_are_out_names(table, args.skip(1));
        let rest_lines = response_arg_lines(table, args.skip(1));
        let rest_names = out_arg_names(args.skip(1));
        if is_out_arg(args[0]) {
            assert forall|k: int| 0 <= k < out_arg_names(args).len() implies response_arg_lines(
                table,
                args,
            )[2 * k] == tag_line(#[trigger] out_arg_names(args)[k]) by {
                if k > 0 {
                    assert(out_arg_names(args)[k] == rest_names[k - 1]);
                    assert(response_arg_lines(table, args)[2 * k] == rest_lines[2 * (k - 1)]);
                }
            }
        }
    }
}

/// An action with no `in` arguments yields a request descriptor without
/// parameters: only the optional identifier override remains in its
/// generated signature.
pub proof fn lemma_no_in_args_no_parameters(
    table: Seq<StateVariableV>,
    a: ActionV,
    service_type: Seq<char>,
    control_url: Seq<char>,
)
    requires
        forall|k: int| 0 <= k < a.arguments.len() ==> !is_in_arg(#[trigger] a.arguments[k]),
    ensures
        request_function_for(table, a, service_type, control_url).parameter == Seq::<
            ParameterAndTypeV,
        >::empty(),
        params_sig(request_function_for(table, a, service_type, control_url).parameter) == Seq::<
            char,
        >::empty(),
{
    lemma_no_in_args_no_parameters_rec(table, a.arguments);
}

proof fn lemma_no_in_args_no_parameters_rec(table: Seq<StateVariableV>, args: Seq<ArgumentV>)
    requires
        forall|k: int| 0 <= k < args.len() ==> !is_in_arg(#[trigger] args[k]),
    ensures
        request_params(table, args) == Seq::<ParameterAndTypeV>::empty(),
    decreases args.len(),
{
    if args.len() > 0 {
        assert forall|k: int| 0 <= k < args.skip(1).len() implies !is_in_arg(
            #[trigger] args.skip(1)[k],
        ) by {
            assert(args.skip(1)[k] == args[k + 1]);
        }
        lemma_no_in_args_no_parameters_rec(table, args.skip(1));
    }
}

/// An action with no `out` arguments yields a response descriptor with an
/// empty field set: its content is only the derive line, the struct header
/// and the closing brace.
pub proof fn lemma_no_out_args_empty_response(table: Seq<StateVariableV>, a: ActionV)
    requires
        forall|k: int| 0 <= k < a.arguments.len() ==> !is_out_arg(#[trigger] a.arguments[k]),
    ensures
        response_arg_lines(table, a.arguments) == Seq::<Seq<char>>::empty(),
        action_response_content(table, a) == seq![
            derive_line(),
            struct_open_line(a.name),
            close_line(),
        ],
{
    lemma_no_out_args_empty_response_rec(table, a.arguments);
    assert(seq![derive_line(), struct_open_line(a.name)] + Seq::<Seq<char>>::empty() + seq![
        close_line(),
    ] =~= seq![derive_line(), struct_open_line(a.name), close_line()]);
}

proof fn lemma_no_out_args_empty_response_rec(table: Seq<StateVariableV>, args: Seq<ArgumentV>)
    requires
        forall|k: int| 0 <= k < args.len() ==> !is_out_arg(#[trigger] args[k]),
    ensures
        response_arg_lines(table, args) == Seq::<Seq<char>>::empty(),
    decreases args.len(),
{
    if args.len() > 0 {
        assert forall|k: int| 0 <= k < args.skip(1).len() implies !is_out_arg(
            #[trigger] args.skip(1)[k],
        ) by {
            assert(args.skip(1)[k] == args[k + 1]);
        }
        lemma_no_out_args_empty_response_rec(table, args.skip(1));
    }
}

/// Synthesis is deterministic: equal aggregates, schemas and service
/// coordinates yield equal results, so running generation twice over
/// unchanged input yields identical descriptors.
pub proof fn lemma_fill_deterministic(
    o1: OutputFilesV,
    o2: OutputFilesV,
    api1: ApiDescV,
    api2: ApiDescV,
    name: Seq<char>,
    control_url: Seq<char>,
    service_type: Seq<char>,
)
    requires
        o1 == o2,
        api1 == api2,
    ensures
        fill_result(o1, api1, name, control_url, service_type) == fill_result(
            o2,
            api2,
            name,
            control_url,
            service_type,
        ),
{
}

impl ApiDesc {
    /// The normalized, language-safe form of a wire identifier.
    pub fn rustify_string(&self, input: &str) -> (r: String)
        ensures
            r@ == rustify(input@),
    {
        rustify_exec(input)
    }

    /// Resolves a state-variable reference to its primitive type name, or
    /// fails as `resolve_type` says.
    pub fn search_state_variable_type(&self, state_variable_name: &str) -> (r: Result<
        String,
        GenError,
    >)
        ensures
            match r {
                Ok(t) => resolve_type(self@.state_table, state_variable_name@) == Ok::<
                    Seq<char>,
                    GenErrorV,
                >(t@),
                Err(e) => resolve_type(self@.state_table, state_variable_name@) == Err::<
                    Seq<char>,
                    GenErrorV,
                >(e@),
            },
    {
        let ghost table = self@.state_table;
        let vars = &self.service_state_table.state_variable;
        let mut i: usize = 0;
        while i < vars.len()
            invariant
                i <= vars@.len(),
                table == self@.state_table,
                table == vars@.map_values(|v: StateVariable| v@),
                table.len() == vars@.len(),
                forall|j: int| 0 <= j < i ==> (#[trigger] table[j]).name != state_variable_name@,
            decreases vars@.len() - i,
        {
            let variable = &vars[i];
            proof {
                assert(table[i as int] == vars@[i as int]@);
            }
            if str_eq(state_variable_name, variable.name.as_str()) {
                proof {
                    lemma_find_state_var_shift(table, state_variable_name@, i as int);
                    assert(table.skip(i as int)[0] == table[i as int]);
                    assert(find_state_var(table, state_variable_name@) == Some(i as int));
                }
                let dt = variable.data_type.as_str();
                if str_eq(dt, "boolean") {
                    return Ok(String::from_str("bool"));
                } else if str_eq(dt, "ui1") || str_eq(dt, "ui2") || str_eq(dt, "ui4") {
                    return Ok(String::from_str("u32"));
                } else if str_eq(dt, "i1") || str_eq(dt, "i2") || str_eq(dt, "i4") {
                    return Ok(String::from_str("i32"));
                } else if str_eq(dt, "string") || str_eq(dt, "uuid") || str_eq(dt, "dateTime") {
                    return Ok(String::from_str("String"));
                } else {
                    return Err(GenError::UnmappedType(variable.data_type.clone()));
                }
            }
            i = i + 1;
        }
        proof {
            lemma_find_state_var_shift(table, state_variable_name@, table.len() as int);
            assert(table.skip(table.len() as int) =~= Seq::<StateVariableV>::empty());
        }
        Err(GenError::SchemaInconsistency(String::from_str(state_variable_name)))
    }

    /// Synthesizes the bindings of every action of this schema into
    /// `output_files`: the envelope-registry lines, one response module and
    /// one request module, all named from the normalized `name`. Fails as
    /// `fill_result` says, leaving `output_files` untouched: no partial
    /// descriptor is ever emitted.
    pub fn fill_output_files(
        &self,
        output_files: &mut OutputFiles,
        name: &str,
        control_url: &str,
        service_type: &str,
    ) -> (r: Result<(), GenError>)
        ensures
            match r {
                Ok(_) => fill_result(
                    old(output_files)@,
                    self@,
                    name@,
                    control_url@,
                    service_type@,
                ) == Ok::<OutputFilesV, GenErrorV>(final(output_files)@),
                Err(e) => fill_result(
                    old(output_files)@,
                    self@,
                    name@,
                    control_url@,
                    service_type@,
                ) == Err::<OutputFilesV, GenErrorV>(e@) && final(output_files)@ == old(
                    output_files,
                )@,
            },
    {
        let ghost table = self@.state_table;
        let ghost actions = self@.actions;
        let ghost st = service_type@;
        let ghost cu = control_url@;
        let parts = split_colon(service_type);
        proof {
            assert(str_views(parts@).len() == crate::text::segments(st).len());
        }
        if parts.len() < 4 {
            return Err(GenError::MalformedServiceType(String::from_str(service_type)));
        }
        let rusty_name = self.rustify_string(name);
        let mut response_file = ResponseFile::new();
        let mut request_file = RequestFile::new();
        response_file.name = rusty_name.clone();
        request_file.name = rusty_name;
        let mut anns: Vec<String> = Vec::new();
        let acts = &self.action_list.action;
        let mut i: usize = 0;
        proof {
            assert(actions.skip(0) =~= actions);
            assert(str_views(response_file.content@) =~= Seq::<Seq<char>>::empty());
            assert(Seq::<Seq<char>>::empty() + actions_response_content(table, actions)
                =~= actions_response_content(table, actions));
            assert(request_file@.request_functions + request_functions_for(table, actions, st, cu)
                =~= request_functions_for(table, actions, st, cu));
            assert(str_views(anns@) =~= Seq::<Seq<char>>::empty());
            assert(Seq::<Seq<char>>::empty() + actions_annotations(actions) =~= actions_annotations(
                actions,
            ));
        }
        while i < acts.len()
            invariant
                i <= acts@.len(),
                table == self@.state_table,
                actions == self@.actions,
                actions == acts@.map_values(|a: Action| a@),
                actions.len() == acts@.len(),
                st == service_type@,
                cu == control_url@,
                crate::text::segments(st).len() >= 4,
                output_files@ == old(output_files)@,
                response_file@.name == rustify(name@),
                request_file@.name == rustify(name@),
                first_action_error(table, actions) == first_action_error(
                    table,
                    actions.skip(i as int),
                ),
                str_views(response_file.content@) + actions_response_content(
                    table,
                    actions.skip(i as int),
                ) == actions_response_content(table, actions),
                request_file@.request_functions + request_functions_for(
                    table,
                    actions.skip(i as int),
                    st,
                    cu,
                ) == request_functions_for(table, actions, st, cu),
                str_views(anns@) + actions_annotations(actions.skip(i as int))
                    == actions_annotations(actions),
            decreases acts@.len() - i,
        {
            let a = &acts[i];
            let ghost av = actions[i as int];
            proof {
                assert(actions.skip(i as int)[0] == actions[i as int]);
                assert(actions.skip(i as int).skip(1) =~= actions.skip(i + 1));
                assert(av == acts@[i as int]@);
            }
            let mut request_function = RequestFunction::new();
            request_function.name = a.name.clone();
            request_function.name_rusty = self.rustify_string(a.name.as_str());
            request_function.action_name = a.name.clone();
            request_function.control_url = String::from_str(control_url);
            request_function.service_type = String::from_str(service_type);

            let ghost content_base = str_views(response_file.content@);
            response_file.content.push(String::from_str("#[derive(Deserialize, Debug)]\n"));
            let mut open_line = String::from_str("pub struct ");
            let stripped = strip_seps_string(a.name.as_str());
            open_line.append(stripped.as_str());
            open_line.append("Response{\n");
            response_file.content.push(open_line);
            proof {
                assert(str_views(response_file.content@) =~= content_base + seq![
                    derive_line(),
                    struct_open_line(av.name),
                ]);
            }
            let mut ann = String::from_str("\n\t#[serde(alias = \"");
            ann.append(a.name.as_str());
            ann.append("Response\")]");
            let ghost anns_base = str_views(anns@);
            anns.push(ann);
            proof {
                assert(str_views(anns@) =~= anns_base.push(ann_line(av.name)));
            }
            let args_vec = &a.argument_list.argument;
            let ghost args = av.arguments;
            let ghost content_base2 = str_views(response_file.content@);
            let mut j: usize = 0;
            proof {
                assert(args.skip(0) =~= args);
                assert(str_views(response_file.content@) + response_arg_lines(table, args)
                    =~= content_base2 + response_arg_lines(table, args));
                assert(request_function@.parameter =~= Seq::<ParameterAndTypeV>::empty());
                assert(request_function@.parameter + request_params(table, args) =~= request_params(
                    table,
                    args,
                ));
            }
            while j < args_vec.len()
                invariant
                    j <= args_vec@.len(),
                    table == self@.state_table,
                    actions == self@.actions,
                    st == service_type@,
                    cu == control_url@,
                    crate::text::segments(st).len() >= 4,
                    output_files@ == old(output_files)@,
                    0 <= i < actions.len(),
                    av == actions[i as int],
                    args == av.arguments,
                    args == args_vec@.map_values(|x: Argument| x@),
                    args.len() == args_vec@.len(),
                    first_action_error(table, actions) == first_action_error(
                        table,
                        actions.skip(i as int),
                    ),
                    first_arg_error(table, args) == first_arg_error(table, args.skip(j as int)),
                    response_file@.name == rustify(name@),
                    str_views(response_file.content@) + response_arg_lines(
                        table,
                        args.skip(j as int),
                    ) == content_base2 + response_arg_lines(table, args),
                    request_function@.parameter + request_params(table, args.skip(j as int))
                        == request_params(table, args),
                    request_function@.name == av.name,
                    request_function@.name_rusty == rustify(av.name),
                    request_function@.action_name == av.name,
                    request_function@.control_url == cu,
                    request_function@.service_type == st,
                decreases args_vec@.len() - j,
            {
                let arg = &args_vec[j];
                let ghost gv = args[j as int];
                proof {
                    reveal_strlit("out");
                    reveal_strlit("in");
                    assert("out"@.len() == 3);
                    assert("in"@.len() == 2);
                    assert(args.skip(j as int)[0] == args[j as int]);
                    assert(args.skip(j as int).skip(1) =~= args.skip(j + 1));
                    assert(gv == args_vec@[j as int]@);
                }
                if str_eq(arg.direction.as_str(), "out") {
                    match self.search_state_variable_type(arg.related_state_variable.as_str()) {
                        Err(e) => {
                            proof {
                                assert(first_arg_error(table, args.skip(j as int)) == Some(e@));
                                assert(first_action_error(table, actions.skip(i as int)) == Some(
                                    e@,
                                ));
                            }
                            return Err(e);
                        },
                        Ok(t) => {
                            let mut tagl = String::from_str("\t#[serde(rename = \"");
                            tagl.append(arg.name.as_str());
                            tagl.append("\")]\n");
                            let mut fieldl = String::from_str("\tpub ");
                            let vn = self.rustify_string(arg.name.as_str());
                            fieldl.append(vn.as_str());
                            fieldl.append(": ");
                            fieldl.append(t.as_str());
                            fieldl.append(",\n");
                            let ghost cb = str_views(response_file.content@);
                            response_file.content.push(tagl);
                            response_file.content.push(fieldl);
                            proof {
                                let lines = seq![
                                    tag_line(gv.name),
                                    field_line(
                                        gv.name,
                                        resolve_type(table, gv.related_state_variable)->Ok_0,
                                    ),
                                ];
                                assert(str_views(response_file.content@) =~= cb + lines);
                                assert((cb + lines) + response_arg_lines(table, args.skip(j + 1))
                                    =~= cb + (lines + response_arg_lines(table, args.skip(j + 1))));
                                assert(request_params(table, args.skip(j as int)) == request_params(
                                    table,
                                    args.skip(j + 1),
                                ));
                            }
                        },
                    }
                } else if str_eq(arg.direction.as_str(), "in") {
                    match self.search_state_variable_type(arg.related_state_variable.as_str()) {
                        Err(e) => {
                            proof {
                                assert(first_arg_error(table, args.skip(j as int)) == Some(e@));
                                assert(first_action_error(table, actions.skip(i as int)) == Some(
                                    e@,
                                ));
                            }
                            return Err(e);
                        },
                        Ok(t) => {
                            let mut param = ParameterAndType::new();
                            param.parameter_name = arg.name.clone();
                            param.parameter_name_rusty = self.rustify_string(arg.name.as_str());
                            param.param_type = t;
                            let ghost pb = request_function@.parameter;
                            let ghost pv = ParameterAndTypeV {
                                parameter_name: gv.name,
                                parameter_name_rusty: rustify(gv.name),
                                param_type: resolve_type(table, gv.related_state_variable)->Ok_0,
                            };
                            request_function.parameter.push(param);
                            proof {
                                assert(param@ == pv);
                                assert(request_params(table, args.skip(j as int)) == seq![pv]
                                    + request_params(table, args.skip(j + 1)));
                                assert(request_function@.parameter =~= pb.push(pv));
                                assert(pb.push(pv) + request_params(table, args.skip(j + 1)) =~= pb
                                    + (seq![pv] + request_params(table, args.skip(j + 1))));
                            }
                        },
                    }
                } else {
                    proof {
                        assert(request_params(table, args.skip(j as int)) == request_params(
                            table,
                            args.skip(j + 1),
                        ));
                        assert(response_arg_lines(table, args.skip(j as int))
                            == response_arg_lines(table, args.skip(j + 1)));
                    }
                }
                j = j + 1;
            }
            proof {
                assert(args.skip(args.len() as int) =~= Seq::<ArgumentV>::empty());
                assert(str_views(response_file.content@) + Seq::<Seq<char>>::empty() =~= str_views(
                    response_file.content@,
                ));
                assert(request_function@.parameter + Seq::<ParameterAndTypeV>::empty()
                    =~= request_function@.parameter);
                assert(request_function@.parameter =~= request_params(table, args));
            }
            let ghost cb_final = str_views(response_file.content@);
            response_file.content.push(String::from_str("}\n\n"));
            proof {
                assert(str_views(response_file.content@) =~= cb_final + seq![close_line()]);
                assert(str_views(response_file.content@) =~= content_base
                    + action_response_content(table, av));
                assert((content_base + action_response_content(table, av))
                    + actions_response_content(table, actions.skip(i + 1)) =~= content_base + (
                action_response_content(table, av) + actions_response_content(
                    table,
                    actions.skip(i + 1),
                )));
                assert(request_function@ == request_function_for(table, av, st, cu));
            }
            let ghost qb = request_file@.request_functions;
            request_file.request_functions.push(request_function);
            proof {
                assert(request_file@.request_functions =~= qb.push(
                    request_function_for(table, av, st, cu),
                ));
                assert(qb.push(request_function_for(table, av, st, cu)) + request_functions_for(
                    table,
                    actions.skip(i + 1),
                    st,
                    cu,
                ) =~= qb + (seq![request_function_for(table, av, st, cu)] + request_functions_for(
                    table,
                    actions.skip(i + 1),
                    st,
                    cu,
                )));
                assert(anns_base.push(ann_line(av.name)) + actions_annotations(actions.skip(i + 1))
                    =~= anns_base + (seq![ann_line(av.name)] + actions_annotations(
                    actions.skip(i + 1),
                )));
            }
            i = i + 1;
        }
        proof {
            assert(actions.skip(actions.len() as int) =~= Seq::<ActionV>::empty());
            assert(str_views(response_file.content@) + Seq::<Seq<char>>::empty() =~= str_views(
                response_file.content@,
            ));
            assert(request_file@.request_functions + Seq::<RequestFunctionV>::empty()
                =~= request_file@.request_functions);
            assert(str_views(anns@) + Seq::<Seq<char>>::empty() =~= str_views(anns@));
        }
        let ghost o0 = output_files@;
        let ghost resp_v = response_file@;
        let ghost req_v = request_file@;
        let ghost anns_v = str_views(anns@);
        output_files.request_files.push(request_file);
        output_files.response_files.push(response_file);
        let mut anns_m = anns;
        output_files.annotation_string.append(&mut anns_m);
        proof {
            let expect = fill_spec(o0, self@, name@, cu, st);
            assert(output_files@.annotation_string =~= o0.annotation_string + anns_v);
            assert(output_files@.response_files =~= o0.response_files.push(resp_v));
            assert(output_files@.request_files =~= o0.request_files.push(req_v));
            assert(resp_v == ResponseFileV {
                name: rustify(name@),
                content: actions_response_content(table, actions),
            });
            assert(req_v == RequestFileV {
                name: rustify(name@),
                request_functions: request_functions_for(table, actions, st, cu),
            });
            assert(output_files@ == expect);
        }
        Ok(())
    }
}

} // verus!
