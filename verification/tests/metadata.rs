use yumpu_dl::metadata::{
    metadata_url, page_file_name, scratch_dir_name, user_agent, DocumentData, JsonResponse,
    PageData, PageSubData,
};

fn locators(prefix: &str) -> PageSubData {
    PageSubData {
        thumb: format!("{}-thumb", prefix),
        small: format!("{}-small", prefix),
        medium: format!("{}-medium", prefix),
        large: format!("{}-large", prefix),
    }
}

fn document() -> DocumentData {
    DocumentData {
        id: 66625223,
        title: String::from("LeBaron manuals"),
        url_title: String::from("lebaron-manuals-92en"),
        width: 210,
        height: 297,
        url: String::from("https://www.yumpu.com/en/document/view/66625223/lebaron-manuals-92en"),
        base_path: String::from("https://img.yumpu.com/66625223/"),
        pages: vec![
            PageData { nr: 1, images: locators("1/img"), qss: locators("quality=1") },
            PageData { nr: 2, images: locators("2/img"), qss: locators("quality=2") },
        ],
    }
}

#[test]
fn metadata_endpoint_is_keyed_by_the_identifier() {
    assert_eq!(metadata_url(66625223), "https://www.yumpu.com/en/document/json2/66625223");
    assert_eq!(metadata_url(0), "https://www.yumpu.com/en/document/json2/0");
}

#[test]
fn requests_declare_a_fixed_client() {
    assert_eq!(user_agent(), "reqwest-rs/0.11.11");
}

#[test]
fn scratch_directory_is_named_by_the_identifier() {
    assert_eq!(scratch_dir_name(66625223), "66625223");
}

#[test]
fn scratch_files_are_named_by_page_number() {
    assert_eq!(page_file_name(1), "1.jpg");
    assert_eq!(page_file_name(120), "120.jpg");
    let doc = document();
    assert_eq!(doc.pages[1].file_name(), "2.jpg");
}

#[test]
fn image_address_joins_base_path_large_locator_and_query() {
    let doc = document();
    assert_eq!(
        doc.pages[0].image_url(&doc.base_path),
        "https://img.yumpu.com/66625223/1/img-large?quality=1-large"
    );
    assert_eq!(
        doc.pages[1].image_url("http://host/"),
        "http://host/2/img-large?quality=2-large"
    );
}

#[test]
fn page_count_is_the_length_of_the_page_list() {
    assert_eq!(document().page_count(), 2);
}

#[test]
fn response_hands_out_its_document() {
    let response = JsonResponse::new(document());
    assert_eq!(response.document(), &document());
    assert_eq!(response.into_document(), document());
}
