//! Prompts for extracting drug mentions from a transcript with a language model.
use vstd::prelude::*;
use vstd::string::StringExecFns;

verus! {

/// System prompt for veterinary entity extraction.
pub const SYSTEM_PROMPT: &'static str = "You are a veterinary medical assistant that extracts drug information from clinical transcripts.\n\nExtract drug mentions with the following information:\n- drug_name: The name of the drug (brand name, generic name, or common abbreviation)\n- dose: Numeric dose value (if mentioned)\n- unit: Dose unit (mg, mL, cc, tablets, etc.)\n- route: Route of administration (orally, IV, IM, subcutaneously, etc.)\n- species: Target species if mentioned (canine, feline, equine, etc.)\n\nCommon veterinary drug abbreviations:\n- ace = acepromazine\n- metacam = meloxicam\n- rimadyl = carprofen\n- cerenia = maropitant\n- convenia = cefovecin\n- baytril = enrofloxacin\n\nOutput JSON with \u{22}mentions\u{22} array containing extracted drug mentions.";

/// Text of the extraction request before the transcript.
pub const EXTRACTION_HEAD: &'static str = "Extract all drug mentions from this veterinary clinical transcript:\n\n\u{22}";

/// Text of the extraction request after the transcript.
pub const EXTRACTION_TAIL: &'static str = "\u{22}\n\nReturn a JSON object with a \u{22}mentions\u{22} array. Each mention should have:\n- raw_text: The exact text containing the drug reference\n- drug_name: The drug name\n- dose: Numeric dose (number only, null if not specified)\n- unit: Dose unit (null if not specified)\n- route: Route of administration (null if not specified)\n- species: Target species (null if not specified)\n- start_offset: Character position where the mention starts\n- end_offset: Character position where the mention ends";

/// First worked example: transcript.
pub const EXAMPLE_1_INPUT: &'static str = "Give the dog 100mg of carprofen twice daily by mouth";

/// First worked example: expected output.
pub const EXAMPLE_1_OUTPUT: &'static str = "{\u{22}mentions\u{22}:[{\u{22}raw_text\u{22}:\u{22}100mg of carprofen twice daily by mouth\u{22},\u{22}drug_name\u{22}:\u{22}carprofen\u{22},\u{22}dose\u{22}:100,\u{22}unit\u{22}:\u{22}mg\u{22},\u{22}route\u{22}:\u{22}by mouth\u{22},\u{22}species\u{22}:\u{22}dog\u{22},\u{22}start_offset\u{22}:13,\u{22}end_offset\u{22}:52}]}";

/// Second worked example: transcript.
pub const EXAMPLE_2_INPUT: &'static str = "Administer 0.5cc of acepromazine IM before surgery";

/// Second worked example: expected output.
pub const EXAMPLE_2_OUTPUT: &'static str = "{\u{22}mentions\u{22}:[{\u{22}raw_text\u{22}:\u{22}0.5cc of acepromazine IM\u{22},\u{22}drug_name\u{22}:\u{22}acepromazine\u{22},\u{22}dose\u{22}:0.5,\u{22}unit\u{22}:\u{22}cc\u{22},\u{22}route\u{22}:\u{22}IM\u{22},\u{22}species\u{22}:null,\u{22}start_offset\u{22}:11,\u{22}end_offset\u{22}:35}]}";

/// Third worked example: transcript.
pub const EXAMPLE_3_INPUT: &'static str = "The cat needs metacam and also some cerenia for nausea";

/// Third worked example: expected output.
pub const EXAMPLE_3_OUTPUT: &'static str = "{\u{22}mentions\u{22}:[{\u{22}raw_text\u{22}:\u{22}metacam\u{22},\u{22}drug_name\u{22}:\u{22}metacam\u{22},\u{22}dose\u{22}:null,\u{22}unit\u{22}:null,\u{22}route\u{22}:null,\u{22}species\u{22}:\u{22}cat\u{22},\u{22}start_offset\u{22}:13,\u{22}end_offset\u{22}:20},{\u{22}raw_text\u{22}:\u{22}cerenia for nausea\u{22},\u{22}drug_name\u{22}:\u{22}cerenia\u{22},\u{22}dose\u{22}:null,\u{22}unit\u{22}:null,\u{22}route\u{22}:null,\u{22}species\u{22}:\u{22}cat\u{22},\u{22}start_offset\u{22}:35,\u{22}end_offset\u{22}:53}]}";

/// The extraction request for a transcript: the transcript in quotes, between the
/// instructions.
pub open spec fn extraction_prompt(transcript: Seq<char>) -> Seq<char> {
    EXTRACTION_HEAD@ + transcript + EXTRACTION_TAIL@
}

/// A user turn that asks for extraction from `transcript`.
pub open spec fn user_turn(transcript: Seq<char>) -> Seq<char> {
    "<|user|>\n"@ + extraction_prompt(transcript) + "\n<|end|>\n"@
}

/// A worked example: the request and the expected answer.
pub open spec fn example_turns(input: Seq<char>, output: Seq<char>) -> Seq<char> {
    user_turn(input) + "<|assistant|>\n"@ + output + "\n<|end|>\n"@
}

/// The system turn.
pub open spec fn system_turn() -> Seq<char> {
    "<|system|>\n"@ + SYSTEM_PROMPT@ + "\n<|end|>\n"@
}

/// The worked examples, in order.
pub open spec fn examples_text() -> Seq<char> {
    example_turns(EXAMPLE_1_INPUT@, EXAMPLE_1_OUTPUT@) + example_turns(
        EXAMPLE_2_INPUT@,
        EXAMPLE_2_OUTPUT@,
    ) + example_turns(EXAMPLE_3_INPUT@, EXAMPLE_3_OUTPUT@)
}

/// The full prompt: the system turn, the worked examples when asked for, the request for
/// `transcript`, and an open assistant turn.
pub open spec fn full_prompt(transcript: Seq<char>, include_examples: bool) -> Seq<char> {
    system_turn() + (if include_examples {
        examples_text()
    } else {
        Seq::empty()
    }) + user_turn(transcript) + "<|assistant|>\n"@
}

/// Builds the extraction request for a transcript.
pub fn make_extraction_prompt(transcript: &str) -> (r: String)
    ensures
        r@ == extraction_prompt(transcript@),
{
    let mut s = String::from_str(EXTRACTION_HEAD);
    s.append(transcript);
    s.append(EXTRACTION_TAIL);
    s
}

fn append_user_turn(out: &mut String, transcript: &str)
    ensures
        final(out)@ == old(out)@ + user_turn(transcript@),
{
    let ghost before = out@;
    out.append("<|user|>\n");
    let p = make_extraction_prompt(transcript);
    out.append(p.as_str());
    out.append("\n<|end|>\n");
    assert(out@ =~= before + user_turn(transcript@));
}

fn append_example(out: &mut String, input: &str, output: &str)
    ensures
        final(out)@ == old(out)@ + example_turns(input@, output@),
{
    let ghost before = out@;
    append_user_turn(out, input);
    out.append("<|assistant|>\n");
    out.append(output);
    out.append("\n<|end|>\n");
    assert(out@ =~= before + example_turns(input@, output@));
}

/// Builds the full prompt, with or without the worked examples.
pub fn build_full_prompt(transcript: &str, include_examples: bool) -> (r: String)
    ensures
        r@ == full_prompt(transcript@, include_examples),
{
    let mut prompt = String::new();
    prompt.append("<|system|>\n");
    prompt.append(SYSTEM_PROMPT);
    prompt.append("\n<|end|>\n");
    assert(prompt@ =~= system_turn());
    if include_examples {
        append_example(&mut prompt, EXAMPLE_1_INPUT, EXAMPLE_1_OUTPUT);
        append_example(&mut prompt, EXAMPLE_2_INPUT, EXAMPLE_2_OUTPUT);
        append_example(&mut prompt, EXAMPLE_3_INPUT, EXAMPLE_3_OUTPUT);
        assert(prompt@ =~= system_turn() + examples_text());
    } else {
        assert(prompt@ =~= system_turn() + Seq::<char>::empty());
    }
    append_user_turn(&mut prompt, transcript);
    prompt.append("<|assistant|>\n");
    prompt
}

} // verus!
