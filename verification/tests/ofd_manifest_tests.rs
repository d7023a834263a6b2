use dianju_wasm_seal::ofd_parser::manifest::{
    parse_annotations_index, parse_common_resources, read_document_manifest, scan_annotations_index,
    scan_common_resources, scan_document_manifest,
};
use dianju_wasm_seal::ofd_parser::xml::XmlEvent;

fn start(content: &str) -> XmlEvent {
    let n = content.find(' ').unwrap_or(content.len());
    XmlEvent::Start(content.as_bytes().to_vec(), n)
}

fn empty(content: &str) -> XmlEvent {
    let n = content.find(' ').unwrap_or(content.len());
    XmlEvent::Empty(content.as_bytes().to_vec(), n)
}

fn end(name: &str) -> XmlEvent {
    XmlEvent::End(name.as_bytes().to_vec())
}

fn text(t: &str) -> XmlEvent {
    XmlEvent::Text(t.to_string())
}

const DOCUMENT_XML: &str = r#"<?xml version="1.0" encoding="UTF-8"?>
<ofd:Document xmlns:ofd="http://www.ofdspec.org/2016">
  <ofd:CommonData>
    <ofd:MaxUnitID>10</ofd:MaxUnitID>
    <ofd:PageArea><ofd:PhysicalBox>0 0 210 297</ofd:PhysicalBox></ofd:PageArea>
    <ofd:DocumentRes>DocumentRes.xml</ofd:DocumentRes>
  </ofd:CommonData>
  <ofd:Pages>
    <ofd:Page ID="1" BaseLoc="Pages/Page_0/Content.xml"/>
    <ofd:Page ID="2" BaseLoc="Pages/Page_1/Content.xml"></ofd:Page>
    <ofd:Page ID="x" BaseLoc="Pages/Page_2/Content.xml"/>
    <ofd:Page ID="4"/>
  </ofd:Pages>
  <ofd:Annotations>Annots/Annotations.xml</ofd:Annotations>
</ofd:Document>"#;

#[test]
fn test_read_document_manifest() {
    let (pages, res, annots) = read_document_manifest("Doc_0/Document.xml", DOCUMENT_XML);
    assert_eq!(
        pages,
        vec![
            (1, "Pages/Page_0/Content.xml".to_string()),
            (2, "Pages/Page_1/Content.xml".to_string()),
            (0, "Pages/Page_2/Content.xml".to_string()),
        ]
    );
    assert_eq!(res.as_deref(), Some("DocumentRes.xml"));
    assert_eq!(annots.as_deref(), Some("Annots/Annotations.xml"));
}

#[test]
fn test_document_manifest_default_resource_file() {
    let xml = r#"<ofd:Document xmlns:ofd="x"><ofd:Pages><ofd:Page ID="7" BaseLoc="P/C.xml"/></ofd:Pages></ofd:Document>"#;
    let (pages, res, annots) = read_document_manifest("Doc_0/Document.xml", xml);
    assert_eq!(pages, vec![(7, "P/C.xml".to_string())]);
    assert_eq!(res.as_deref(), Some("Doc_0/DocumentRes.xml"));
    assert_eq!(annots, None);
    let (_, res, _) = read_document_manifest("Document.xml", xml);
    assert_eq!(res.as_deref(), Some("DocumentRes.xml"));
}

#[test]
fn test_scan_document_manifest_events() {
    let events = vec![
        start("ofd:Document"),
        empty("ofd:Page ID=\"9\" BaseLoc=\"outside.xml\""),
        start("ofd:Pages"),
        empty("ofd:Page ID=\"+3\" BaseLoc=\"a.xml\""),
        end("ofd:Pages"),
        start("ofd:DocumentRes"),
        text("ignored.xml"),
        end("ofd:DocumentRes"),
        start("ofd:CommonData"),
        start("ofd:DocumentRes"),
        text("  Res.xml \n"),
        end("ofd:DocumentRes"),
        end("ofd:CommonData"),
        end("ofd:Document"),
    ];
    let (pages, res, annots) = scan_document_manifest("D/Document.xml", &events);
    assert_eq!(pages, vec![(3, "a.xml".to_string())]);
    assert_eq!(res.as_deref(), Some("Res.xml"));
    assert_eq!(annots, None);
}

const RES_XML: &str = r#"<?xml version="1.0" encoding="UTF-8"?>
<ofd:Res xmlns:ofd="http://www.ofdspec.org/2016" BaseLoc="Res">
  <ofd:Fonts>
    <ofd:Font ID="3" FontName="SimSun" FamilyName="宋体"/>
    <ofd:Font ID="4" FontName="KaiTi"/>
    <ofd:Font ID="5"/>
  </ofd:Fonts>
  <ofd:MultiMedias>
    <ofd:MultiMedia ID="6" Type="Image"><ofd:MediaFile>seal.png</ofd:MediaFile></ofd:MultiMedia>
    <ofd:MultiMedia ID="7" Type="IMAGE"><ofd:MediaFile>/Doc_0/Res/abs.png</ofd:MediaFile></ofd:MultiMedia>
    <ofd:MultiMedia ID="8" Type="Video"><ofd:MediaFile>v.mp4</ofd:MediaFile></ofd:MultiMedia>
    <ofd:MultiMedia ID="9"><ofd:MediaFile>noType.png</ofd:MediaFile></ofd:MultiMedia>
    <ofd:MultiMedia ID="10" Type="Image"></ofd:MultiMedia>
  </ofd:MultiMedias>
</ofd:Res>"#;

#[test]
fn test_parse_common_resources() {
    let res = parse_common_resources("Doc_0/DocumentRes.xml", RES_XML);
    let fonts: Vec<(String, String, String)> =
        res.fonts.iter().map(|(k, f)| (k.clone(), f.id.clone(), f.family.clone())).collect();
    assert_eq!(
        fonts,
        vec![
            ("3".to_string(), String::new(), "宋体".to_string()),
            ("4".to_string(), String::new(), "KaiTi".to_string()),
            ("5".to_string(), String::new(), "sans-serif".to_string()),
        ]
    );
    assert_eq!(
        res.images,
        vec![
            ("6".to_string(), "Doc_0/Res/seal.png".to_string()),
            ("7".to_string(), "Doc_0/Res/abs.png".to_string()),
            ("9".to_string(), "Doc_0/Res/noType.png".to_string()),
        ]
    );
}

#[test]
fn test_common_resources_base_dirs() {
    let xml = r#"<Res><MultiMedias><MultiMedia ID="1" Type="Image"><MediaFile>a.png</MediaFile></MultiMedia></MultiMedias></Res>"#;
    assert_eq!(parse_common_resources("PublicRes.xml", xml).images, vec![("1".to_string(), "a.png".to_string())]);
    assert_eq!(parse_common_resources("D/PublicRes.xml", xml).images, vec![("1".to_string(), "D/a.png".to_string())]);
    let xml = r#"<Res BaseLoc="R"><MultiMedias><MultiMedia ID="1" Type="Image"><MediaFile>a.png</MediaFile></MultiMedia></MultiMedias></Res>"#;
    assert_eq!(parse_common_resources("PublicRes.xml", xml).images, vec![("1".to_string(), "R/a.png".to_string())]);
}

#[test]
fn test_scan_common_resources_empty_media() {
    let events = vec![
        empty("ofd:MultiMedia ID=\"\" Type=\"Image\""),
        empty("ofd:MultiMedia ID=\"2\" Type=\"Image\""),
        empty("ofd:MediaFile FilePath=\"f.png\""),
        start("ofd:MultiMedia ID=\"3\" Type=\"image\""),
        text("   "),
        text(" g.png "),
        text("h.png"),
        end("ofd:MultiMedia"),
    ];
    let res = scan_common_resources("X/Res.xml", &events);
    assert!(res.fonts.is_empty());
    assert_eq!(res.images, vec![("3".to_string(), "X/g.png".to_string())]);
}

const ANNOTATIONS_XML: &str = r#"<?xml version="1.0" encoding="UTF-8"?>
<ofd:Annotations xmlns:ofd="http://www.ofdspec.org/2016">
  <ofd:Page PageID="1"><ofd:FileLoc>Pages/Page_0/Annotation.xml</ofd:FileLoc></ofd:Page>
  <ofd:Page PageID="bad"><ofd:FileLoc>Pages/Page_9/Annotation.xml</ofd:FileLoc></ofd:Page>
  <ofd:Page PageID="2"><ofd:FileLoc>Pages/Page_1/Annotation.xml</ofd:FileLoc></ofd:Page>
</ofd:Annotations>"#;

#[test]
fn test_parse_annotations_index() {
    assert_eq!(
        parse_annotations_index(ANNOTATIONS_XML),
        vec![(1, "Pages/Page_0/Annotation.xml".to_string()), (2, "Pages/Page_1/Annotation.xml".to_string())]
    );
}

#[test]
fn test_scan_annotations_index_outside_file_loc() {
    let events = vec![
        start("Page PageID=\"5\""),
        text("not a location"),
        start("FileLoc"),
        text(" a.xml "),
        end("FileLoc"),
        text("after"),
        end("Page"),
        start("FileLoc"),
        text("orphan.xml"),
        end("FileLoc"),
    ];
    assert_eq!(scan_annotations_index(&events), vec![(5, "a.xml".to_string())]);
}

#[test]
fn test_scan_stops_at_error_and_skips_other_events() {
    let events = vec![
        start("ofd:Pages"),
        XmlEvent::Other,
        empty("ofd:Page ID=\"1\" BaseLoc=\"A.xml\""),
        XmlEvent::Error,
        empty("ofd:Page ID=\"2\" BaseLoc=\"B.xml\""),
    ];
    let (pages, _, _) = scan_document_manifest("Doc_0/Document.xml", &events);
    assert_eq!(pages, vec![(1, "A.xml".to_string())]);
}

#[test]
fn test_read_stops_at_malformed_xml() {
    let xml = r#"<ofd:Document xmlns:ofd="x"><ofd:Pages><ofd:Page ID="7" BaseLoc="P/C.xml"/></ofd:Wrong><ofd:Page ID="8" BaseLoc="Q.xml"/></ofd:Pages></ofd:Document>"#;
    let (pages, _, _) = read_document_manifest("Doc_0/Document.xml", xml);
    assert_eq!(pages, vec![(7, "P/C.xml".to_string())]);
}
