//! The event decoder and the prompt augmentation step.
//!
//! A raw completion-request event carries, as one JSON object, a
//! correlation identifier (`cluster_execution` on the wire), the model it
//! addresses (`model`), the name the completion service knows the model
//! under (`model_name`), the prompt (`prompt_contents`), and an optional
//! tool invocation (`tool.fields.name` and `tool.fields.args`). Decoding
//! is pure; a missing or ill-shaped required field is the one failure.

use vstd::prelude::*;

use crate::wire;

verus! {

/// A capability request embedded in the prompt context; read once.
pub struct ToolInvocation {
    pub name: String,
    pub args: Vec<String>,
}

/// The mathematical content of a tool invocation.
#[verifier::ext_equal]
pub struct ToolView {
    pub name: Seq<char>,
    pub args: Seq<Seq<char>>,
}

impl View for ToolInvocation {
    type V = ToolView;

    open spec fn view(&self) -> ToolView {
        ToolView { name: self.name@, args: self.args.deep_view() }
    }
}

/// One decoded completion request.
pub struct CompletionRequest {
    /// Opaque handle linking the request to its result submission
    /// (`cluster_execution` on the wire).
    pub correlation_id: String,
    /// The model identity the event addresses (`model` on the wire).
    pub model_id: String,
    /// The name under which the completion service knows the model
    /// (`model_name` on the wire).
    pub model_name: String,
    /// What the model should complete (`prompt_contents` on the wire);
    /// augmentation may append to it.
    pub prompt_text: String,
    /// The optional capability request attached to the event.
    pub tool: Option<ToolInvocation>,
}

/// The mathematical content of a completion request.
#[verifier::ext_equal]
pub struct RequestView {
    pub correlation_id: Seq<char>,
    pub model_id: Seq<char>,
    pub model_name: Seq<char>,
    pub prompt_text: Seq<char>,
    pub tool: Option<ToolView>,
}

impl View for CompletionRequest {
    type V = RequestView;

    open spec fn view(&self) -> RequestView {
        RequestView {
            correlation_id: self.correlation_id@,
            model_id: self.model_id@,
            model_name: self.model_name@,
            prompt_text: self.prompt_text@,
            tool: match self.tool {
                Some(t) => Some(t@),
                None => None,
            },
        }
    }
}

/// The payload was not a well-formed completion-request event.
pub struct MalformedEvent;

/// What decoding a raw payload yields: every required field read off the
/// one JSON object, the tool taken along when it is present and non-null,
/// and `None` exactly when any of that shape is missing.
pub open spec fn decode_spec(p: Seq<u8>) -> Option<RequestView> {
    match (
        wire::str_field_of(p, "cluster_execution"@),
        wire::str_field_of(p, "model"@),
        wire::str_field_of(p, "model_name"@),
        wire::str_field_of(p, "prompt_contents"@),
    ) {
        (Some(corr), Some(model), Some(name), Some(prompt)) => if !wire::field_set_of(
            p,
            "tool"@,
        ) {
            Some(
                RequestView {
                    correlation_id: corr,
                    model_id: model,
                    model_name: name,
                    prompt_text: prompt,
                    tool: None,
                },
            )
        } else {
            match wire::tool_of(p) {
                Some(t) => Some(
                    RequestView {
                        correlation_id: corr,
                        model_id: model,
                        model_name: name,
                        prompt_text: prompt,
                        tool: Some(ToolView { name: t.0, args: t.1 }),
                    },
                ),
                None => None,
            }
        },
        _ => None,
    }
}

/// Decodes one raw event payload into a completion request. Fails exactly
/// when a required field is absent or of the wrong shape; retrying cannot
/// help, so the caller drops the event.
pub fn decode_event(payload: &[u8]) -> (r: Result<CompletionRequest, MalformedEvent>)
    ensures
        match decode_spec(payload@) {
            Some(v) => r matches Ok(req) && req@ == v,
            None => r is Err,
        },
{
    let corr = wire::json_str_field(payload, "cluster_execution");
    let model = wire::json_str_field(payload, "model");
    let name = wire::json_str_field(payload, "model_name");
    let prompt = wire::json_str_field(payload, "prompt_contents");
    match (corr, model, name, prompt) {
        (Some(correlation_id), Some(model_id), Some(model_name), Some(prompt_text)) => {
            if !wire::json_field_is_set(payload, "tool") {
                Ok(
                    CompletionRequest {
                        correlation_id,
                        model_id,
                        model_name,
                        prompt_text,
                        tool: None,
                    },
                )
            } else {
                match wire::json_tool_field(payload) {
                    Some((tool_name, tool_args)) => Ok(
                        CompletionRequest {
                            correlation_id,
                            model_id,
                            model_name,
                            prompt_text,
                            tool: Some(ToolInvocation { name: tool_name, args: tool_args }),
                        },
                    ),
                    None => Err(MalformedEvent),
                }
            }
        },
        _ => Err(MalformedEvent),
    }
}

/// The one tool name the dispatch recognizes.
pub open spec fn known_tool(name: Seq<char>) -> bool {
    name == "some_tool"@
}

/// The rendered argument lines: each argument quoted, indented and
/// followed by a comma, one per line.
pub open spec fn args_lines(args: Seq<Seq<char>>) -> Seq<char>
    decreases args.len(),
{
    if args.len() == 0 {
        Seq::empty()
    } else {
        args_lines(args.drop_last()) + "    \""@ + args.last() + "\",\n"@
    }
}

/// The rendered argument list.
pub open spec fn args_block(args: Seq<Seq<char>>) -> Seq<char> {
    if args.len() == 0 {
        "[]"@
    } else {
        "[\n"@ + args_lines(args) + "]"@
    }
}

/// The note appended to the prompt for the recognized tool.
pub open spec fn tool_note(args: Seq<Seq<char>>) -> Seq<char> {
    "\n\nInvoked some tool with args:\n"@ + args_block(args)
}

/// What prompt augmentation yields: the tool note is appended for the
/// recognized tool name; an unrecognized tool, or none, changes nothing.
pub open spec fn augment_spec(r: RequestView) -> RequestView {
    match r.tool {
        Some(t) => if known_tool(t.name) {
            RequestView { prompt_text: r.prompt_text + tool_note(t.args), ..r }
        } else {
            r
        },
        None => r,
    }
}

/// Augmentation keeps the base prompt as a prefix of the new prompt,
/// changes no other field, and never fails, whatever the tool name is;
/// without a recognized tool the request is exactly unchanged.
pub proof fn lemma_augment_keeps_base(r: RequestView)
    ensures
        augment_spec(r).prompt_text.take(r.prompt_text.len() as int) == r.prompt_text,
        augment_spec(r).correlation_id == r.correlation_id,
        augment_spec(r).model_id == r.model_id,
        augment_spec(r).model_name == r.model_name,
        augment_spec(r).tool == r.tool,
        !(r.tool matches Some(t) && known_tool(t.name)) ==> augment_spec(r) == r,
{
    match r.tool {
        Some(t) => {
            if known_tool(t.name) {
                assert((r.prompt_text + tool_note(t.args)).take(r.prompt_text.len() as int)
                    =~= r.prompt_text);
            } else {
                assert(r.prompt_text.take(r.prompt_text.len() as int) =~= r.prompt_text);
            }
        },
        None => {
            assert(r.prompt_text.take(r.prompt_text.len() as int) =~= r.prompt_text);
        },
    }
}

/// Renders the note for the recognized tool.
fn render_tool_note(args: &Vec<String>) -> (r: String)
    ensures
        r@ == tool_note(args.deep_view()),
{
    let ghost argv = args.deep_view();
    let mut s: String = "\n\nInvoked some tool with args:\n".to_owned();
    let ghost head = s@;
    if args.len() == 0 {
        wire::push_str(&mut s, "[]");
        return s;
    }
    wire::push_str(&mut s, "[\n");
    proof {
        assert(argv.take(0) =~= Seq::<Seq<char>>::empty());
        assert(s@ =~= head + "[\n"@ + args_lines(argv.take(0)));
    }
    let mut i: usize = 0;
    while i < args.len()
        invariant
            0 <= i <= args.len(),
            argv == args.deep_view(),
            argv.len() == args.len(),
            s@ == head + "[\n"@ + args_lines(argv.take(i as int)),
            head == "\n\nInvoked some tool with args:\n"@,
        decreases args.len() - i,
    {
        let ghost before = s@;
        wire::push_str(&mut s, "    \"");
        let arg = &args[i];
        wire::push_str(&mut s, arg.as_str());
        wire::push_str(&mut s, "\",\n");
        proof {
            assert(argv[i as int] == args@[i as int].deep_view());
            assert(argv.take(i as int + 1).drop_last() =~= argv.take(i as int));
            assert(argv.take(i as int + 1).last() == argv[i as int]);
            assert(s@ =~= head + "[\n"@ + args_lines(argv.take(i as int + 1)));
        }
        i += 1;
    }
    wire::push_str(&mut s, "]");
    proof {
        assert(argv.take(args.len() as int) =~= argv);
        assert(s@ =~= head + ("[\n"@ + args_lines(argv) + "]"@));
    }
    s
}

/// Appends the tool note to the prompt when the attached tool is the
/// recognized one; an unrecognized tool, or none, leaves the request
/// unchanged — unknown tools never abort the request.
pub fn augment_prompt(req: &mut CompletionRequest)
    ensures
        final(req)@ == augment_spec(old(req)@),
{
    let known: String = "some_tool".to_owned();
    let note: Option<String> = match &req.tool {
        Some(t) => if t.name == known {
            Some(render_tool_note(&t.args))
        } else {
            None
        },
        None => None,
    };
    match note {
        Some(n) => {
            wire::push_str(&mut req.prompt_text, n.as_str());
            proof {
                assert(req@ =~= augment_spec(old(req)@));
            }
        },
        None => {
            proof {
                assert(req@ =~= augment_spec(old(req)@));
            }
        },
    }
}

/// One raw event as the subscription hands it over: the name of its type
/// and its JSON payload.
pub struct RawEvent {
    pub name: String,
    pub payload: Vec<u8>,
}

/// The views of a sequence of raw events.
pub open spec fn events_view(events: Seq<RawEvent>) -> Seq<(Seq<char>, Seq<u8>)> {
    Seq::new(events.len(), |i: int| (events[i].name@, events[i].payload@))
}

/// The payload of the first event named `wanted`.
pub open spec fn first_named(events: Seq<(Seq<char>, Seq<u8>)>, wanted: Seq<char>) -> Option<
    Seq<u8>,
>
    decreases events.len(),
{
    if events.len() == 0 {
        None
    } else if events[0].0 == wanted {
        Some(events[0].1)
    } else {
        first_named(events.drop_first(), wanted)
    }
}

/// The string under `field` of the first event named `wanted`, when such
/// an event exists and carries the field.
pub open spec fn event_field_spec(
    events: Seq<(Seq<char>, Seq<u8>)>,
    wanted: Seq<char>,
    field: Seq<char>,
) -> Option<Seq<char>> {
    match first_named(events, wanted) {
        None => None,
        Some(p) => wire::str_field_of(p, field),
    }
}

/// Finds the first event whose type bears the wanted name and reads a
/// string field of its payload: how a transaction's event list answers
/// "which object did this create".
pub fn extract_event_field(events: &Vec<RawEvent>, wanted: &String, field: &str) -> (r: Option<
    String,
>)
    ensures
        match (r, event_field_spec(events_view(events@), wanted@, field@)) {
            (Some(s), Some(v)) => s@ == v,
            (None, None) => true,
            _ => false,
        },
{
    let ghost all = events_view(events@);
    proof {
        assert(all.skip(0) =~= all);
    }
    let mut i: usize = 0;
    while i < events.len()
        invariant
            0 <= i <= events.len(),
            all == events_view(events@),
            first_named(all, wanted@) == first_named(all.skip(i as int), wanted@),
        decreases events.len() - i,
    {
        proof {
            assert(all.skip(i as int)[0] == (events@[i as int].name@,
            events@[i as int].payload@));
            assert(all.skip(i as int).drop_first() =~= all.skip(i as int + 1));
        }
        let event = &events[i];
        if event.name == *wanted {
            return wire::json_str_field(event.payload.as_slice(), field);
        }
        i += 1;
    }
    proof {
        assert(all.skip(events@.len() as int) =~= Seq::<(Seq<char>, Seq<u8>)>::empty());
    }
    None
}

} // verus!
