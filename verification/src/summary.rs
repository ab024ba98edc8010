//! The summarization flow's pure parts: choosing the prompt template,
//! rendering the prompt, validating the API settings, and judging the
//! extracted text and the collaborator's reply.
//!
//! The outbound HTTP call itself is a collaborator's job; everything it
//! needs is computed here and handed over as plain values.

use vstd::prelude::*;
use crate::errors::HubError;
use crate::sites::default_summary_prompt_template;
use crate::sites::default_summary_prompt_template_view;
use crate::sites::is_site;
use crate::sites::site_of;
use crate::sites::AiSite;
use crate::sites::AppConfig;
use crate::strutil::replace_all;
use crate::strutil::spec_contains;
use crate::strutil::spec_replace;
use crate::strutil::spec_trim;
use crate::strutil::spec_trim_end_slashes;
use crate::strutil::str_contains;
use crate::strutil::str_eq;
use crate::strutil::trim_end_slashes;
use crate::strutil::trim_str;

verus! {

/// The label handed to the model for each configured language code.
pub open spec fn spec_language_label(code: Seq<char>) -> Seq<char> {
    if code == "zh-CN"@ || code == "zh"@ {
        "中文"@
    } else if code == "en"@ || code == "en-US"@ || code == "en-GB"@ {
        "English"@
    } else if code == "ja"@ || code == "ja-JP"@ {
        "日本語"@
    } else if code == "ko"@ || code == "ko-KR"@ {
        "한국어"@
    } else if code == "es"@ || code == "es-ES"@ || code == "es-AR"@ {
        "Español"@
    } else if code == "fr"@ || code == "fr-FR"@ {
        "Français"@
    } else {
        "English"@
    }
}

/// Maps a language code to the label used in prompts; unknown codes fall
/// back to English.
pub fn language_label(code: &str) -> (r: &'static str)
    ensures
        r@ == spec_language_label(code@),
{
    if str_eq(code, "zh-CN") || str_eq(code, "zh") {
        "中文"
    } else if str_eq(code, "en") || str_eq(code, "en-US") || str_eq(code, "en-GB") {
        "English"
    } else if str_eq(code, "ja") || str_eq(code, "ja-JP") {
        "日本語"
    } else if str_eq(code, "ko") || str_eq(code, "ko-KR") {
        "한국어"
    } else if str_eq(code, "es") || str_eq(code, "es-ES") || str_eq(code, "es-AR") {
        "Español"
    } else if str_eq(code, "fr") || str_eq(code, "fr-FR") {
        "Français"
    } else {
        "English"
    }
}

/// The rendered prompt: placeholders replaced, and the language or text
/// appended when the template never mentions them.
pub open spec fn spec_build_summary_prompt(
    template: Seq<char>,
    language: Seq<char>,
    text: Seq<char>,
) -> Seq<char> {
    let step1 = spec_replace(template, "{language}"@, language);
    let step2 = spec_replace(step1, "{text}"@, text);
    let step3 = if !spec_contains(template, "{language}"@) {
        step2 + "\n\nLanguage: "@ + language
    } else {
        step2
    };
    if !spec_contains(template, "{text}"@) {
        step3 + "\n\n"@ + text
    } else {
        step3
    }
}

/// Renders the prompt from a template with `{language}` and `{text}`
/// placeholders.  A template that lacks a placeholder gets the value
/// appended instead, so nothing the user asked for is silently dropped.
pub fn build_summary_prompt(template: &str, language: &str, text: &str) -> (r: String)
    ensures
        r@ == spec_build_summary_prompt(template@, language@, text@),
{
    proof {
        reveal_strlit("{language}");
        reveal_strlit("{text}");
    }
    let step1 = replace_all(template, "{language}", language);
    let mut rendered = replace_all(step1.as_str(), "{text}", text);
    if !str_contains(template, "{language}") {
        rendered.append("\n\nLanguage: ");
        rendered.append(language);
    }
    if !str_contains(template, "{text}") {
        rendered.append("\n\n");
        rendered.append(text);
    }
    rendered
}

/// The template a summarize uses: the site's override when the site is
/// known and its override is non-blank, else the configured template, and
/// the built-in default when even that is blank.
pub open spec fn spec_chosen_template(
    sites: Seq<AiSite>,
    configured: Seq<char>,
    site: Option<Seq<char>>,
    default_template: Seq<char>,
) -> Seq<char> {
    let base = match site {
        Some(id) => {
            if is_site(sites, id) && spec_trim(site_of(sites, id).summary_prompt_override@).len()
                > 0 {
                site_of(sites, id).summary_prompt_override@
            } else {
                configured
            }
        },
        None => configured,
    };
    if spec_trim(base).len() == 0 {
        default_template
    } else {
        base
    }
}

/// Everything the HTTP collaborator needs for one summarize call.
#[derive(Debug)]
pub struct SummarizeRequest {
    /// The chat-completions endpoint derived from the configured base URL.
    pub url: String,
    pub model: String,
    pub api_key: String,
    pub prompt: String,
}

/// Validates the API settings and renders the request for summarizing
/// `text`.  A blank API key or model is rejected before anything is sent.
pub fn prepare_summarize(config: &AppConfig, text: &str, site_id: Option<&str>) -> (r: Result<
    SummarizeRequest,
    HubError,
>)
    ensures
        spec_trim(config.ai_api_key@).len() == 0 ==> r == Err::<SummarizeRequest, HubError>(
            HubError::InvalidArgument,
        ),
        spec_trim(config.ai_api_key@).len() > 0 && spec_trim(config.ai_api_model@).len() == 0
            ==> r == Err::<SummarizeRequest, HubError>(HubError::InvalidArgument),
        spec_trim(config.ai_api_key@).len() > 0 && spec_trim(config.ai_api_model@).len() > 0 ==> (
        r matches Ok(q) && q.url@ == spec_trim_end_slashes(spec_trim(config.ai_api_base_url@))
            + "/chat/completions"@ && q.model@ == config.ai_api_model@ && q.api_key@
            == config.ai_api_key@ && q.prompt@ == spec_build_summary_prompt(
            spec_chosen_template(
                config.sites@,
                config.summary_prompt_template@,
                match site_id {
                    Some(s) => Some(s@),
                    None => None,
                },
                default_summary_prompt_template_view(),
            ),
            spec_language_label(config.language@),
            text@,
        )),
{
    let key_trimmed = trim_str(config.ai_api_key.as_str());
    if key_trimmed.as_str().is_empty() {
        return Err(HubError::InvalidArgument);
    }
    let model_trimmed = trim_str(config.ai_api_model.as_str());
    if model_trimmed.as_str().is_empty() {
        return Err(HubError::InvalidArgument);
    }
    let base_trimmed = trim_str(config.ai_api_base_url.as_str());
    let base = trim_end_slashes(base_trimmed.as_str());
    let url = crate::strutil::concat2(base.as_str(), "/chat/completions");

    let mut template = config.summary_prompt_template.clone();
    match site_id {
        Some(id) => {
            match config.get_site_by_id(id) {
                Ok(site) => {
                    let ov_trimmed = trim_str(site.summary_prompt_override.as_str());
                    if !ov_trimmed.as_str().is_empty() {
                        template = site.summary_prompt_override;
                    }
                },
                Err(_) => {},
            }
        },
        None => {},
    }
    let template_trimmed = trim_str(template.as_str());
    if template_trimmed.as_str().is_empty() {
        template = default_summary_prompt_template();
    }
    let label = language_label(config.language.as_str());
    let prompt = build_summary_prompt(template.as_str(), label, text);
    Ok(
        SummarizeRequest {
            url,
            model: config.ai_api_model.clone(),
            api_key: config.ai_api_key.clone(),
            prompt,
        },
    )
}

/// Judges the text an extraction returned: blank text means the page could
/// not be read and the summarize fails with `ExtractionEmpty`.
pub fn accept_extracted_text(text: String) -> (r: Result<String, HubError>)
    ensures
        spec_trim(text@).len() == 0 ==> r == Err::<String, HubError>(HubError::ExtractionEmpty),
        spec_trim(text@).len() > 0 ==> (r matches Ok(v) && v@ == text@),
{
    let trimmed = trim_str(text.as_str());
    if trimmed.as_str().is_empty() {
        Err(HubError::ExtractionEmpty)
    } else {
        Ok(text)
    }
}

/// Judges the collaborator's reply: a missing or blank first-choice
/// content is an upstream failure.
pub fn accept_summary_content(content: Option<String>) -> (r: Result<String, HubError>)
    ensures
        ({
            let c = match content {
                Some(s) => s@,
                None => Seq::<char>::empty(),
            };
            if spec_trim(c).len() == 0 {
                r == Err::<String, HubError>(HubError::UpstreamError)
            } else {
                r matches Ok(v) && v@ == c
            }
        }),
{
    let c = match content {
        Some(s) => s,
        None => String::new(),
    };
    let trimmed = trim_str(c.as_str());
    if trimmed.as_str().is_empty() {
        Err(HubError::UpstreamError)
    } else {
        Ok(c)
    }
}

} // verus!
