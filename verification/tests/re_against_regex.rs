use kodik::utils::re::{extract_anime_id, extract_domain};
use lazy_regex::Regex;

struct Lcg(u64);

impl Lcg {
    fn next(&mut self) -> u64 {
        self.0 = self.0.wrapping_mul(6364136223846793005).wrapping_add(1442695040888963407);
        self.0 >> 33
    }
}

fn random_text(rng: &mut Lcg, alphabet: &[&str], max_len: u64) -> String {
    let len = rng.next() % (max_len + 1);
    (0..len).map(|_| alphabet[(rng.next() % alphabet.len() as u64) as usize]).collect()
}

#[test]
fn extract_domain_agrees_with_regex_find() {
    let re = Regex::new(r"(?:[a-z0-9](?:[a-z0-9-]{0,61}[a-z0-9])?\.)+[a-z0-9][a-z0-9-]{0,61}[a-z0-9]").unwrap();
    let alphabet = ["a", "b", "0", "-", ".", ".", "/", "A", " ", "é", "z9"];
    let mut rng = Lcg(7);
    for _ in 0..20000 {
        let text = random_text(&mut rng, &alphabet, 16);
        let expected = re.find(&text).map(|m| m.as_str());
        assert_eq!(extract_domain(&text).ok(), expected, "text {text:?}");
    }
    let long_label = format!("{}.com", "a".repeat(64));
    assert_eq!(extract_domain(&long_label).ok(), re.find(&long_label).map(|m| m.as_str()));
    let long_last = format!("x.{}", "b".repeat(70));
    assert_eq!(extract_domain(&long_last).ok(), re.find(&long_last).map(|m| m.as_str()));
}

#[test]
fn extract_anime_id_agrees_with_regex_captures() {
    let re = Regex::new(r"/animes?/(?:[a-z])?([0-9]+)(?:-|$|/)").unwrap();
    let alphabet = ["/anime", "/animes", "/", "s", "z", "1", "2", "-", "x", "A"];
    let mut rng = Lcg(11);
    for _ in 0..20000 {
        let text = random_text(&mut rng, &alphabet, 10);
        let expected = re.captures(&text).and_then(|c| c.get(1)).map(|m| m.as_str());
        assert_eq!(extract_anime_id(&text).ok(), expected, "text {text:?}");
    }
}
