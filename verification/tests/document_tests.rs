use slideshow::document::{container, page, render_slides};
use slideshow::layout::Layout;
use slideshow::slide::Slide;

fn slide_with_body(body: &str) -> Slide {
    Slide { title: None, body: Some(body.to_string()), notes: None, media: None, layout: None }
}

#[test]
fn container_carries_class_index_and_notes() {
    assert_eq!(
        container(0, "centered", "(no notes)", "<div></div>"),
        "<div class=\"slide centered\" id=\"0\" data-notes=\"(no notes)\"><div></div></div>"
    );
}

#[test]
fn container_writes_the_index_in_decimal() {
    assert_eq!(container(7, "c", "", ""), "<div class=\"slide c\" id=\"7\" data-notes=\"\"></div>");
    assert_eq!(container(10, "c", "", ""), "<div class=\"slide c\" id=\"10\" data-notes=\"\"></div>");
    assert_eq!(container(1203, "c", "", ""), "<div class=\"slide c\" id=\"1203\" data-notes=\"\"></div>");
}

#[test]
fn container_escapes_the_notes() {
    assert_eq!(
        container(1, "simple", "say \"hi\" & <wave>", "x"),
        "<div class=\"slide simple\" id=\"1\" data-notes=\"say &quot;hi&quot; &amp; &lt;wave&gt;\">x</div>"
    );
}

#[test]
fn container_does_not_escape_the_fragment() {
    assert_eq!(
        container(2, "simple", "", "<b>\"&\"</b>"),
        "<div class=\"slide simple\" id=\"2\" data-notes=\"\"><b>\"&\"</b></div>"
    );
}

#[test]
fn page_holds_style_body_and_script() {
    assert_eq!(
        page("p{}", "go()", "<i>x</i>"),
        "<!DOCTYPE html><head><style>p{}</style></head><body><i>x</i></body>\
         <script type=\"text/javascript\">go()</script>"
    );
}

#[test]
fn page_copies_style_and_script_unescaped() {
    let html = page("a>b{}", "if (a<b && c) {}", "");
    assert!(html.contains("<style>a>b{}</style>"));
    assert!(html.contains("<script type=\"text/javascript\">if (a<b && c) {}</script>"));
}

#[test]
fn empty_deck_gives_a_document_without_containers() {
    let html = render_slides(&[], "S", "J");
    assert_eq!(
        html,
        "<!DOCTYPE html><head><style>S</style></head><body></body>\
         <script type=\"text/javascript\">J</script>"
    );
    assert!(!html.contains("class=\"slide"));
}

#[test]
fn one_slide_gives_one_container() {
    let html = render_slides(&[slide_with_body("hi")], "", "");
    assert_eq!(
        html,
        "<!DOCTYPE html><head><style></style></head><body>\
         <div class=\"slide centered\" id=\"0\" data-notes=\"(no notes)\"><div><p>hi</p></div></div>\
         </body><script type=\"text/javascript\"></script>"
    );
}

#[test]
fn slides_keep_their_order() {
    let names = ["alpha", "beta", "gamma", "delta"];
    let deck: Vec<Slide> = names.iter().map(|name| slide_with_body(name)).collect();
    let html = render_slides(&deck, "", "");
    let mut from = 0;
    for (i, name) in names.iter().enumerate() {
        let open = format!("<div class=\"slide centered\" id=\"{}\"", i);
        let at = html[from..].find(&open).expect("container in order") + from;
        let body = html[at..].find(&format!("<p>{}</p>", name)).expect("content follows") + at;
        assert!(body > at);
        from = body;
    }
    assert_eq!(html.matches("class=\"slide ").count(), names.len());
}

#[test]
fn document_is_the_containers_one_after_the_other() {
    let deck = vec![
        Slide {
            title: Some("One".to_string()),
            body: None,
            notes: Some("first".to_string()),
            media: None,
            layout: Some(Layout::Simple),
        },
        Slide {
            title: None,
            body: Some("Two".to_string()),
            notes: None,
            media: Some("assets/two.png".to_string()),
            layout: None,
        },
    ];
    let mut body = String::new();
    for (i, slide) in deck.iter().enumerate() {
        body.push_str(&container(i, slide.class(), slide.notes(), &slide.render()));
    }
    assert_eq!(render_slides(&deck, "css", "js"), page("css", "js", &body));
    assert_eq!(
        body,
        "<div class=\"slide simple\" id=\"0\" data-notes=\"first\"><div><h1><p>One</p></h1></div></div>\
         <div class=\"slide centered\" id=\"1\" data-notes=\"(no notes)\">\
         <div><img src=\"assets/two.png\"><p>Two</p></div></div>"
    );
}

#[test]
fn rendering_twice_gives_the_same_document() {
    let deck = vec![slide_with_body("# a"), slide_with_body("b <i>c</i>")];
    let first = render_slides(&deck, "s", "j");
    let second = render_slides(&deck.clone(), "s", "j");
    assert_eq!(first, second);
}

#[test]
fn eleventh_slide_has_index_ten() {
    let deck: Vec<Slide> = (0..11).map(|i| slide_with_body(&format!("s{}", i))).collect();
    let html = render_slides(&deck, "", "");
    assert!(html.contains("id=\"10\" data-notes=\"(no notes)\"><div><p>s10</p></div></div></body>"));
}
