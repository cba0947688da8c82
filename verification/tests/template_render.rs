use mpvc::resolve::{plan_specifier, Metadata, SpecPlan};
use mpvc::template::{RenderEvent, Renderer};

fn metadata_of(json: &str) -> Metadata {
    let v: serde_json::Value = serde_json::from_str(json).unwrap();
    Metadata::from_value(&v).unwrap()
}

fn fetch<'a>(props: &'a [(&'a str, serde_json::Value)], key: &[char]) -> Option<&'a serde_json::Value> {
    let k: String = key.iter().collect();
    props.iter().find(|(n, _)| *n == k).map(|(_, v)| v)
}

fn eval_plan(plan: SpecPlan, props: &[(&str, serde_json::Value)]) -> Option<String> {
    match plan {
        SpecPlan::Immediate(v) => Some(v.iter().collect()),
        SpecPlan::Unresolved => None,
        SpecPlan::NeedText(p) => fetch(props, &p)?.as_str().map(|s| s.to_owned()),
        SpecPlan::NeedClock(p) => {
            let f = fetch(props, &p)?.as_f64()?;
            Some(mpvc::resolve::format_duration(f as u64))
        }
        SpecPlan::NeedWhole(p) => {
            let f = fetch(props, &p)?.as_f64()?;
            Some(mpvc::resolve::u64_text(f as u64))
        }
        SpecPlan::NeedIndex(p) => {
            let u = fetch(props, &p)?.as_u64()?;
            Some(mpvc::resolve::u64_text(u))
        }
        SpecPlan::NeedFlag(p, t, e) => {
            let b = fetch(props, &p).and_then(|v| v.as_bool());
            mpvc::resolve::ternary_result(b, &t, &e).map(|v| v.iter().collect())
        }
        SpecPlan::NeedAny(p) => {
            let v = fetch(props, &p)?;
            mpvc::resolve::value_to_string(v).ok()
        }
    }
}

fn render(template: &str, md: &Metadata, props: &[(&str, serde_json::Value)]) -> String {
    let mut r = Renderer::new(template);
    loop {
        match r.advance() {
            RenderEvent::Output(s) => return s,
            RenderEvent::NeedValue(name) => {
                let name_chars: Vec<char> = name.chars().collect();
                let ans = eval_plan(plan_specifier(&name_chars, md), props);
                r.supply(ans.as_deref());
            }
        }
    }
}

fn no_md() -> Metadata {
    metadata_of("{}")
}

#[test]
fn percent_escape_after_specifier() {
    let props = [("percent-pos", serde_json::Value::from(50.5))];
    assert_eq!(render("vol: %percentage%%%", &no_md(), &props), "vol: 50%");
}

#[test]
fn failed_group_is_dropped_whole() {
    let props = [("media-title", serde_json::Value::String("Song".to_string()))];
    assert_eq!(render("[%artist% - ]%title%", &no_md(), &props), "Song");
}

#[test]
fn successful_group_is_kept_whole() {
    let md = metadata_of("{\"artist\":\"AC\",\"title\":\"Song\"}");
    assert_eq!(render("[%artist% - ]%title%", &md, &[]), "AC - Song");
}

#[test]
fn nested_failure_discards_open_nesting() {
    let props = [("b", serde_json::Value::String("X".to_string()))];
    assert_eq!(render("[[%a%]%b%]", &no_md(), &props), "");
}

#[test]
fn nested_groups_merge_on_success() {
    let props = [("a", serde_json::Value::String("Q".to_string()))];
    assert_eq!(render("[x[y%a%]z]", &no_md(), &props), "xyQz");
}

#[test]
fn nested_failure_drops_every_open_group() {
    assert_eq!(render("[x[y%a%]z]", &no_md(), &[]), "");
}

#[test]
fn unterminated_specifier_stops_after_the_prefix() {
    let props = [("media-title", serde_json::Value::String("Song".to_string()))];
    assert_eq!(render("abc %title", &no_md(), &props), "abc ");
}

#[test]
fn unterminated_group_drops_its_text() {
    assert_eq!(render("abc [def", &no_md(), &[]), "abc ");
}

#[test]
fn plain_text_renders_as_itself() {
    assert_eq!(render("just some text", &no_md(), &[]), "just some text");
}

#[test]
fn empty_template_renders_empty() {
    assert_eq!(render("", &no_md(), &[]), "");
}

#[test]
fn finished_renderer_repeats_its_output() {
    let mut r = Renderer::new("done");
    let first = match r.advance() {
        RenderEvent::Output(s) => s,
        RenderEvent::NeedValue(_) => panic!("no specifier in the template"),
    };
    let second = match r.advance() {
        RenderEvent::Output(s) => s,
        RenderEvent::NeedValue(_) => panic!("no specifier in the template"),
    };
    assert_eq!(first, "done");
    assert_eq!(second, "done");
}

#[test]
fn bracket_escapes_render_literally() {
    assert_eq!(render("%[%text%]%", &no_md(), &[]), "[text]");
}

#[test]
fn newline_escape() {
    assert_eq!(render("a%n%b", &no_md(), &[]), "a\nb");
}

#[test]
fn unmatched_close_bracket_is_literal() {
    assert_eq!(render("a]b", &no_md(), &[]), "a]b");
}

#[test]
fn top_level_failure_contributes_nothing() {
    assert_eq!(render("a%nosuch%b", &no_md(), &[]), "ab");
}

#[test]
fn ternary_picks_a_branch() {
    let on = [("pause", serde_json::Value::Bool(true))];
    let off = [("pause", serde_json::Value::Bool(false))];
    assert_eq!(render("%pause?paused:playing%", &no_md(), &on), "paused");
    assert_eq!(render("%pause?paused:playing%", &no_md(), &off), "playing");
    assert_eq!(render("%pause?paused:playing%", &no_md(), &[]), "");
}

#[test]
fn metadata_keys_are_lower_cased() {
    let md = metadata_of("{\"Artist\":\"Q\"}");
    assert_eq!(render("%artist%", &md, &[]), "Q");
}

#[test]
fn tag_attributes_never_fetch_live_properties() {
    // a missing tag attribute fails even when the player could answer
    let props = [("artist", serde_json::Value::String("from player".to_string()))];
    assert_eq!(render("%artist%", &no_md(), &props), "");
    // an arbitrary property name still reaches the live fetch
    let props = [("path", serde_json::Value::String("/tmp/x".to_string()))];
    assert_eq!(render("%path%", &no_md(), &props), "/tmp/x");
}

#[test]
fn title_prefers_metadata_over_live_property() {
    let md = metadata_of("{\"title\":\"From Tags\"}");
    let props = [("media-title", serde_json::Value::String("From Player".to_string()))];
    assert_eq!(render("%title%", &md, &props), "From Tags");
    assert_eq!(render("%title%", &no_md(), &props), "From Player");
}

#[test]
fn non_string_metadata_title_fails() {
    let md = metadata_of("{\"title\":7}");
    let props = [("media-title", serde_json::Value::String("From Player".to_string()))];
    assert_eq!(render("%title%", &md, &props), "");
}

#[test]
fn clock_specifiers_format_seconds() {
    let props = [
        ("time-pos", serde_json::Value::from(59.7)),
        ("duration", serde_json::Value::from(3661.0)),
    ];
    assert_eq!(render("%time%/%duration%", &no_md(), &props), "00:59/01:01:01");
}

#[test]
fn position_is_an_integer_property() {
    let props = [("playlist-pos-1", serde_json::Value::from(3))];
    assert_eq!(render("%position%", &no_md(), &props), "3");
}

#[test]
fn any_property_is_stringified() {
    let props = [
        ("volume", serde_json::Value::from(55.5)),
        ("mute", serde_json::Value::Bool(false)),
    ];
    assert_eq!(render("%volume% %mute%", &no_md(), &props), "55.5 false");
}

#[test]
fn discard_skips_specifier_bodies_with_brackets() {
    // while discarding, bracket characters inside a specifier do not count
    let props = [("b", serde_json::Value::String("X".to_string()))];
    assert_eq!(render("[%a%%x]y%]%b%", &no_md(), &props), "X");
}
