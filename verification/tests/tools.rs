use devsak::base64::{Base64Decoder, Base64Encoder};
use devsak::base64_converter::{Base64Converter, ConvertMode};
use devsak::chain::run_chain;
use devsak::Tool;

#[test]
fn test_b64_encode() {
    let mut converter = Base64Encoder::new();
    assert_eq!("", converter.get_input());
    assert_eq!("", converter.get_output());

    converter.set_input("test");
    assert_eq!("test", converter.get_input());
    assert_eq!("", converter.get_output());

    assert_eq!("dGVzdA==", converter.update_output());
    assert_eq!("dGVzdA==", converter.get_output());
}

#[test]
fn test_b64_decode() {
    let mut converter = Base64Decoder::new();
    assert_eq!("", converter.get_input());
    assert_eq!("", converter.get_output());

    converter.set_input("dGVzdA==");
    assert_eq!("dGVzdA==", converter.get_input());

    assert_eq!("test", converter.update_output());
    assert_eq!("test", converter.get_output());
}

#[test]
fn test_box() {
    let mut tools: Vec<Box<dyn Tool>> =
        vec![Box::new(Base64Encoder::new()), Box::new(Base64Decoder::new())];

    tools[0].set_input("test");
    let i = tools[0].update_output();
    tools[1].set_input(&i);

    assert_eq!("test", tools[1].update_output());
    assert_eq!("test", tools[1].get_output());
}

#[test]
fn test_b64() {
    let mut converter = Base64Converter::new();
    assert_eq!("", converter.get_input());
    assert_eq!("", converter.get_output());

    converter.set_input("test");
    assert_eq!("test", converter.get_input());
    assert_eq!("", converter.get_output());

    assert_eq!("dGVzdA==", converter.update_output());
    assert_eq!("dGVzdA==", converter.get_output());

    converter.set_mode(ConvertMode::Decode);
    assert_eq!(ConvertMode::Decode, converter.get_mode());

    converter.set_input("dGVzdA==");
    assert_eq!("dGVzdA==", converter.get_input());

    assert_eq!("test", converter.update_output());
    assert_eq!("test", converter.get_output());
}

#[test]
fn test_multiple_tools() {
    let mut tools: Vec<Box<dyn Tool>> = vec![
        Box::new(Base64Encoder::new()),
        Box::new(Base64Decoder::new()),
        Box::new(Base64Encoder::new()),
        Box::new(Base64Decoder::new()),
        Box::new(Base64Encoder::new()),
        Box::new(Base64Decoder::new()),
    ];

    if let Some(i) = tools.first_mut() {
        i.set_input("test")
    }

    let output = tools
        .iter_mut()
        .fold(String::from("test"), |mut prev_output, curr_tool| {
            curr_tool.set_input(&prev_output);
            prev_output = curr_tool.update_output();
            prev_output
        });

    assert_eq!("test", &output);
    assert_eq!(
        "test",
        &tools.last_mut().map(|i| i.update_output()).unwrap()
    );
    assert_eq!("test", &tools.last_mut().map(|i| i.get_output()).unwrap());
}

#[test]
fn fresh_tools_hold_nothing() {
    let encoder = Base64Encoder::new();
    assert_eq!("", encoder.get_input());
    assert_eq!("", encoder.get_output());
    let decoder = Base64Decoder::new();
    assert_eq!("", decoder.get_input());
    assert_eq!("", decoder.get_output());
    let converter = Base64Converter::new();
    assert_eq!("", converter.get_input());
    assert_eq!("", converter.get_output());
    assert_eq!(ConvertMode::Encode, converter.get_mode());
    let encoder = Base64Encoder::default();
    assert_eq!("", encoder.get_input());
    assert_eq!("", encoder.get_output());
    let decoder = Base64Decoder::default();
    assert_eq!("", decoder.get_input());
    assert_eq!("", decoder.get_output());
}

#[test]
fn update_without_input_changes_nothing() {
    let mut encoder = Base64Encoder::new();
    assert_eq!("", encoder.update_output());
    assert_eq!("", encoder.get_input());
    assert_eq!("", encoder.get_output());

    let mut decoder = Base64Decoder::new();
    assert_eq!("", decoder.update_output());
    assert_eq!("", decoder.get_input());
    assert_eq!("", decoder.get_output());

    let mut converter = Base64Converter::new();
    assert_eq!("", converter.update_output());
    converter.set_mode(ConvertMode::Decode);
    assert_eq!("", converter.update_output());
    assert_eq!("", converter.get_input());
    assert_eq!("", converter.get_output());
}

#[test]
fn reading_the_output_twice_gives_the_same() {
    let mut encoder = Base64Encoder::new();
    encoder.set_input("read me twice");
    encoder.update_output();
    let first = encoder.get_output();
    let second = encoder.get_output();
    assert_eq!(first, second);
    assert_eq!("cmVhZCBtZSB0d2ljZQ==", first);
}

#[test]
fn set_input_leaves_the_output() {
    let mut encoder = Base64Encoder::new();
    encoder.set_input("test");
    encoder.update_output();
    encoder.set_input("other");
    assert_eq!("other", encoder.get_input());
    assert_eq!("dGVzdA==", encoder.get_output());
    assert_eq!("b3RoZXI=", encoder.update_output());
}

#[test]
fn update_is_idempotent() {
    let mut decoder = Base64Decoder::new();
    decoder.set_input("Zm9vYmFy");
    assert_eq!("foobar", decoder.update_output());
    assert_eq!("foobar", decoder.update_output());
    assert_eq!("Zm9vYmFy", decoder.get_input());
}

#[test]
fn empty_input_is_an_input() {
    let mut encoder = Base64Encoder::new();
    encoder.set_input("");
    assert_eq!("", encoder.update_output());
    let mut decoder = Base64Decoder::new();
    decoder.set_input("");
    assert_eq!("", decoder.update_output());
}

#[test]
fn decoder_shows_the_sentinel_on_malformed_input() {
    let mut decoder = Base64Decoder::new();
    decoder.set_input("not valid base64!!");
    assert_eq!("Invalid Input", decoder.update_output());
    assert_eq!("Invalid Input", decoder.get_output());
    assert_eq!("not valid base64!!", decoder.get_input());
}

#[test]
fn converter_drops_its_output_on_malformed_input() {
    let mut converter = Base64Converter::new();
    converter.set_input("test");
    assert_eq!("dGVzdA==", converter.update_output());
    converter.set_mode(ConvertMode::Decode);
    assert_eq!("dGVzdA==", converter.get_output());
    converter.set_input("not valid base64!!");
    assert_eq!("", converter.update_output());
    assert_eq!("", converter.get_output());
    assert_eq!("not valid base64!!", converter.get_input());
}

#[test]
fn converter_shows_bytes_that_are_no_text_lossily() {
    let mut converter = Base64Converter::new();
    converter.set_mode(ConvertMode::Decode);
    converter.set_input("/w==");
    assert_eq!("\u{fffd}", converter.update_output());
}

#[test]
fn cloned_tool_is_independent() {
    let mut encoder = Base64Encoder::new();
    encoder.set_input("test");
    encoder.update_output();
    let mut copy = encoder.clone();
    copy.set_input("foo");
    assert_eq!("Zm9v", copy.update_output());
    assert_eq!("test", encoder.get_input());
    assert_eq!("dGVzdA==", encoder.get_output());
}

#[test]
fn chain_of_encoder_and_decoder() {
    let mut tools: Vec<Box<dyn Tool>> =
        vec![Box::new(Base64Encoder::new()), Box::new(Base64Decoder::new())];
    let output = run_chain(&mut tools, "test");
    assert_eq!("test", output);
    assert_eq!("test", tools[0].get_input());
    assert_eq!("dGVzdA==", tools[0].get_output());
    assert_eq!("dGVzdA==", tools[1].get_input());
    assert_eq!("test", tools[1].get_output());
}

#[test]
fn chain_of_six_alternates() {
    let mut tools: Vec<Box<dyn Tool>> = vec![
        Box::new(Base64Encoder::new()),
        Box::new(Base64Decoder::new()),
        Box::new(Base64Encoder::new()),
        Box::new(Base64Decoder::new()),
        Box::new(Base64Encoder::new()),
        Box::new(Base64Decoder::new()),
    ];
    assert_eq!("test", run_chain(&mut tools, "test"));
    for (i, tool) in tools.iter().enumerate() {
        if i % 2 == 0 {
            assert_eq!("test", tool.get_input());
            assert_eq!("dGVzdA==", tool.get_output());
        } else {
            assert_eq!("dGVzdA==", tool.get_input());
            assert_eq!("test", tool.get_output());
        }
    }
}

#[test]
fn chain_without_tools_returns_the_initial_text() {
    let mut tools: Vec<Box<dyn Tool>> = Vec::new();
    assert_eq!("test", run_chain(&mut tools, "test"));
}

#[test]
fn chain_of_decoder_then_encoder_on_an_encoding() {
    let mut tools: Vec<Box<dyn Tool>> =
        vec![Box::new(Base64Decoder::new()), Box::new(Base64Encoder::new())];
    assert_eq!("dGVzdA==", run_chain(&mut tools, "dGVzdA=="));
}

#[test]
fn chain_with_a_converter() {
    let mut decoding = Base64Converter::new();
    decoding.set_mode(ConvertMode::Decode);
    let mut tools: Vec<Box<dyn Tool>> =
        vec![Box::new(decoding), Box::new(Base64Encoder::new())];
    assert_eq!("", run_chain(&mut tools, "no encoding"));
    assert_eq!("", tools[0].get_output());
    assert_eq!("", tools[1].get_input());
}
