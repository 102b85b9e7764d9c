use arle::chat::{
    openai_messages_to_deepseek_v4_prompt, openai_parse_tool_calls, parse_image_input_part,
    render_deepseek_v4_tool_arguments, render_deepseek_v4_tool_calls, render_deepseek_v4_tools,
    render_json_arguments, tool_call_from_members,
    DeepSeekV4ChatTemplateOptions, OpenAiChatContent, OpenAiChatMessage, OpenAiContentPart,
    OpenAiFunctionCall, OpenAiFunctionDefinition, OpenAiImageInput, OpenAiImageUrl, OpenAiToolCall,
    OpenAiToolDefinition,
};

use arle::json::{JsonArgument, JsonArguments};

const DSV4_BOS: &str = "<｜begin▁of▁sentence｜>";

fn message(role: &str, content: Option<&str>) -> OpenAiChatMessage {
    OpenAiChatMessage {
        role: role.to_string(),
        content: content.map(|c| OpenAiChatContent::Text(c.to_string())),
        tool_calls: vec![],
        tool_call_id: None,
        name: None,
    }
}

fn text_part(text: &str) -> OpenAiContentPart {
    OpenAiContentPart {
        part_type: Some("text".to_string()),
        text: Some(text.to_string()),
        image_url: None,
    }
}

fn image_part(url: OpenAiImageUrl) -> OpenAiContentPart {
    OpenAiContentPart { part_type: Some("image_url".to_string()), text: None, image_url: Some(url) }
}

fn chars(v: Vec<char>) -> String {
    v.into_iter().collect()
}

fn shell_tool() -> OpenAiToolDefinition {
    OpenAiToolDefinition {
        tool_type: "function".to_string(),
        function: OpenAiFunctionDefinition {
            name: "shell".to_string(),
            description: Some("Run a shell command".to_string()),
            parameters: None,
        },
    }
}

fn call(name: &str, arguments: &str) -> OpenAiToolCall {
    OpenAiToolCall {
        id: "call_1".to_string(),
        call_type: "function".to_string(),
        function: OpenAiFunctionCall { name: name.to_string(), arguments: arguments.to_string() },
    }
}

#[test]
fn deepseek_v4_chat_prompt_uses_official_prefixes() {
    let msgs = vec![
        message("system", Some("You are a helpful assistant.")),
        message("user", Some("What is 2+2?")),
    ];
    let prompt = openai_messages_to_deepseek_v4_prompt(
        &msgs,
        &[],
        &DeepSeekV4ChatTemplateOptions::default(),
    );

    assert_eq!(
        prompt,
        "<｜begin▁of▁sentence｜>You are a helpful assistant.<｜User｜>What is 2+2?<｜Assistant｜></think>"
    );
}

#[test]
fn deepseek_v4_thinking_prompt_opens_think_block() {
    let msgs = vec![message("user", Some("hello"))];
    let prompt = openai_messages_to_deepseek_v4_prompt(
        &msgs,
        &[],
        &DeepSeekV4ChatTemplateOptions { thinking: true, reasoning_effort: Some("max".to_string()) },
    );

    assert!(prompt.starts_with(DSV4_BOS));
    assert!(prompt.contains("Reasoning Effort: Absolute maximum"));
    assert!(prompt.ends_with("<｜User｜>hello<｜Assistant｜><think>"));
}

#[test]
fn deepseek_v4_history_marks_assistant_turns_once() {
    let msgs = vec![
        message("user", Some("one")),
        message("assistant", Some("two")),
        message("user", Some("three")),
    ];
    let prompt = openai_messages_to_deepseek_v4_prompt(
        &msgs,
        &[],
        &DeepSeekV4ChatTemplateOptions::default(),
    );

    assert_eq!(
        prompt,
        "<｜begin▁of▁sentence｜><｜User｜>one<｜Assistant｜>two<｜end▁of▁sentence｜><｜User｜>three<｜Assistant｜></think>"
    );
}

#[test]
fn parse_tool_call_basic() {
    let text = r#"Let me check that.
<tool_call>
{"name":"shell","arguments":{"command":"pwd"}}
</tool_call>"#;
    let (content, calls) = openai_parse_tool_calls(text);
    assert_eq!(content, "Let me check that.");
    assert_eq!(calls.len(), 1);
    assert_eq!(calls[0].name, "shell");
    let arguments: serde_json::Value = serde_json::from_str(&calls[0].arguments).unwrap();
    assert_eq!(arguments["command"], "pwd");
}

#[test]
fn parts_text_rendering_ignores_image_parts() {
    let content = OpenAiChatContent::Parts(vec![
        text_part("look"),
        image_part(OpenAiImageUrl::Object {
            url: Some("data:image/png;base64,AAAA".to_string()),
            detail: None,
        }),
        text_part(" now"),
    ]);

    assert_eq!(content.to_text(), "look now");
}

#[test]
fn image_inputs_extract_object_and_string_forms() {
    let content = OpenAiChatContent::Parts(vec![
        text_part("look"),
        image_part(OpenAiImageUrl::Object {
            url: Some("data:image/png;base64,AAAA".to_string()),
            detail: Some("high".to_string()),
        }),
        image_part(OpenAiImageUrl::Url("https://example.test/image.jpg".to_string())),
    ]);

    assert_eq!(
        content.image_inputs(),
        vec![
            OpenAiImageInput {
                url: "data:image/png;base64,AAAA".to_owned(),
                detail: Some("high".to_owned()),
            },
            OpenAiImageInput { url: "https://example.test/image.jpg".to_owned(), detail: None },
        ]
    );
}

#[test]
fn image_part_without_url_is_skipped() {
    let part = image_part(OpenAiImageUrl::Object { url: None, detail: Some("low".to_string()) });
    assert_eq!(parse_image_input_part(&part), None);
    assert_eq!(parse_image_input_part(&text_part("x")), None);
    assert_eq!(OpenAiChatContent::Text("plain".to_string()).image_inputs(), vec![]);
}

#[test]
fn parsing_text_without_calls_keeps_it_trimmed() {
    let (content, calls) = openai_parse_tool_calls("  just an answer \n");
    assert_eq!(content, "just an answer");
    assert!(calls.is_empty());
}

#[test]
fn parsing_drops_think_blocks() {
    let (content, calls) = openai_parse_tool_calls("<think>hmm</think>Answer");
    assert_eq!(content, "Answer");
    assert!(calls.is_empty());
}

#[test]
fn call_without_arguments_gets_an_empty_object() {
    let (_, calls) = openai_parse_tool_calls("<tool_call>{\"name\":\"ls\"}</tool_call>");
    assert_eq!(calls.len(), 1);
    assert_eq!(calls[0].name, "ls");
    assert_eq!(calls[0].arguments, "{}");
}

#[test]
fn string_arguments_render_as_strings() {
    assert_eq!(
        chars(render_deepseek_v4_tool_arguments("{\"command\":\"pwd\",\"n\":2}")),
        "<｜DSML｜parameter name=\"command\" string=\"true\">pwd</｜DSML｜parameter>\n<｜DSML｜parameter name=\"n\" string=\"false\">2</｜DSML｜parameter>"
    );
}

#[test]
fn invalid_arguments_fall_back_to_one_string_parameter() {
    assert_eq!(
        chars(render_deepseek_v4_tool_arguments("not-json")),
        "<｜DSML｜parameter name=\"arguments\" string=\"true\">not-json</｜DSML｜parameter>"
    );
}

#[test]
fn non_object_arguments_render_as_json() {
    assert_eq!(
        chars(render_deepseek_v4_tool_arguments("[1,2]")),
        "<｜DSML｜parameter name=\"arguments\" string=\"false\">[1,2]</｜DSML｜parameter>"
    );
}

#[test]
fn tool_calls_render_in_a_dsml_block() {
    assert_eq!(chars(render_deepseek_v4_tool_calls(&[])), "");
    assert_eq!(
        chars(render_deepseek_v4_tool_calls(&[call("shell", "{\"command\":\"pwd\"}")])),
        "\n\n<｜DSML｜tool_calls>\n<｜DSML｜invoke name=\"shell\">\n<｜DSML｜parameter name=\"command\" string=\"true\">pwd</｜DSML｜parameter>\n</｜DSML｜invoke>\n</｜DSML｜tool_calls>"
    );
}

#[test]
fn tool_schemas_are_listed_as_compact_json() {
    let block = chars(render_deepseek_v4_tools(&[shell_tool()]));
    assert!(block.starts_with("## Tools\n\n"));
    assert!(block.contains(
        "### Available Tool Schemas\n\n{\"description\":\"Run a shell command\",\"name\":\"shell\",\"parameters\":{}}\n\n"
    ));
    assert!(block.ends_with("You MUST strictly follow the above defined tool name and parameter schemas to invoke tool calls."));
}

#[test]
fn tools_follow_the_system_message() {
    let tools = vec![shell_tool()];
    let block = chars(render_deepseek_v4_tools(&tools));
    let with_system = openai_messages_to_deepseek_v4_prompt(
        &[message("system", Some("S")), message("user", Some("hi"))],
        &tools,
        &DeepSeekV4ChatTemplateOptions::default(),
    );
    assert_eq!(
        with_system,
        format!("{DSV4_BOS}S\n\n{block}<｜User｜>hi<｜Assistant｜></think>")
    );
    let without_system = openai_messages_to_deepseek_v4_prompt(
        &[message("user", Some("hi"))],
        &tools,
        &DeepSeekV4ChatTemplateOptions::default(),
    );
    assert_eq!(without_system, format!("{DSV4_BOS}{block}<｜User｜>hi<｜Assistant｜></think>"));
}

#[test]
fn tool_results_and_assistant_calls_render() {
    let mut assistant = message("assistant", None);
    assistant.tool_calls = vec![call("shell", "not-json")];
    let prompt = openai_messages_to_deepseek_v4_prompt(
        &[message("user", Some("q")), assistant, message("tool", Some("out"))],
        &[],
        &DeepSeekV4ChatTemplateOptions::default(),
    );
    assert_eq!(
        prompt,
        "<｜begin▁of▁sentence｜><｜User｜>q<｜Assistant｜>\n\n<｜DSML｜tool_calls>\n<｜DSML｜invoke name=\"shell\">\n<｜DSML｜parameter name=\"arguments\" string=\"true\">not-json</｜DSML｜parameter>\n</｜DSML｜invoke>\n</｜DSML｜tool_calls><｜end▁of▁sentence｜><｜User｜><tool_result>out</tool_result><｜Assistant｜></think>"
    );
}

#[test]
fn trailing_assistant_turn_is_not_reopened() {
    let prompt = openai_messages_to_deepseek_v4_prompt(
        &[message("user", Some("q")), message("assistant", Some("a"))],
        &[],
        &DeepSeekV4ChatTemplateOptions { thinking: true, reasoning_effort: Some("high".to_string()) },
    );
    assert_eq!(prompt, "<｜begin▁of▁sentence｜><｜User｜>q<｜Assistant｜>a<｜end▁of▁sentence｜>");
}

#[test]
fn string_content_converts_to_text() {
    let content: OpenAiChatContent = String::from("hi").into();
    assert_eq!(content, OpenAiChatContent::Text("hi".to_string()));
    assert_eq!(content.to_text(), "hi");
}

#[test]
fn tools_follow_only_the_first_system_message() {
    let tools = vec![shell_tool()];
    let block = chars(render_deepseek_v4_tools(&tools));
    let prompt = openai_messages_to_deepseek_v4_prompt(
        &[message("system", Some("A")), message("system", Some("B"))],
        &tools,
        &DeepSeekV4ChatTemplateOptions::default(),
    );
    assert_eq!(prompt, format!("{DSV4_BOS}A\n\n{block}B<｜Assistant｜></think>"));
    assert_eq!(prompt.matches("## Tools").count(), 1);
}

#[test]
fn empty_conversation_is_just_the_header() {
    let prompt = openai_messages_to_deepseek_v4_prompt(&[], &[], &DeepSeekV4ChatTemplateOptions::default());
    assert_eq!(prompt, DSV4_BOS);
}

#[test]
fn call_arguments_are_compact_json() {
    let (_, calls) = openai_parse_tool_calls(
        "<tool_call>{\"name\": \"shell\", \"arguments\": {\"command\": \"ls -l\", \"n\": [1, 2]}}</tool_call>",
    );
    assert_eq!(calls.len(), 1);
    assert_eq!(calls[0].arguments, "{\"command\":\"ls -l\",\"n\":[1,2]}");
    let (_, unnamed) = openai_parse_tool_calls("<tool_call>{\"arguments\": {}}</tool_call>");
    assert!(unnamed.is_empty());
}

#[test]
fn tool_calls_need_a_name() {
    assert_eq!(tool_call_from_members(None, Some("{}".to_string())), None);
    let call = tool_call_from_members(Some("ls".to_string()), None).unwrap();
    assert_eq!(call.name, "ls");
    assert_eq!(call.arguments, "{}");
    let call = tool_call_from_members(Some("cat".to_string()), Some("[1]".to_string())).unwrap();
    assert_eq!(call.arguments, "[1]");
}

#[test]
fn parsed_arguments_render_by_shape() {
    assert_eq!(
        chars(render_json_arguments("raw", &JsonArguments::Invalid)),
        "<｜DSML｜parameter name=\"arguments\" string=\"true\">raw</｜DSML｜parameter>"
    );
    assert_eq!(
        chars(render_json_arguments("7", &JsonArguments::Scalar("7".to_string()))),
        "<｜DSML｜parameter name=\"arguments\" string=\"false\">7</｜DSML｜parameter>"
    );
    let members = vec![
        JsonArgument { key: "a".to_string(), is_string: true, rendered: "x".to_string() },
        JsonArgument { key: "b".to_string(), is_string: false, rendered: "1".to_string() },
    ];
    assert_eq!(
        chars(render_json_arguments("ignored", &JsonArguments::Object(members))),
        "<｜DSML｜parameter name=\"a\" string=\"true\">x</｜DSML｜parameter>\n<｜DSML｜parameter name=\"b\" string=\"false\">1</｜DSML｜parameter>"
    );
    assert_eq!(chars(render_json_arguments("{}", &JsonArguments::Object(vec![]))), "");
}
