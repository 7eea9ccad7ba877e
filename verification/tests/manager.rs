//! Tests of fonts and of the cached font manager.

use std::collections::HashMap;
use std::path::PathBuf;

use ugly::colour::ega;
use ugly::colour::Definition;
use ugly::font::{Error, Font, FontMap, Index, Loader, Manager, Metrics, Spec};
use ugly::resource::{DefaultingHashMap, MutableMap, ResourceMap};

/// A font map over two font directories.
struct Fonts {
    small: Font,
    large: Font,
}

impl ResourceMap<Font> for Fonts {
    type Id = u8;

    fn get(&self, k: u8) -> &Font {
        if k == 0 {
            &self.small
        } else {
            &self.large
        }
    }
}

impl FontMap for Fonts {
    type MetricsMap = DefaultingHashMap<u8, Metrics>;
    type IndexMap = DefaultingHashMap<u8, Index>;

    fn load_metrics(&self) -> Result<Self::MetricsMap, Error> {
        Ok(DefaultingHashMap::new(HashMap::new(), Metrics::default()))
    }
}

/// A loader that keeps count, and "loads" the path and the colour it is given.
#[derive(Default)]
struct Counter {
    loads: Vec<String>,
    tints: usize,
    broken: bool,
}

impl Loader for Counter {
    type Data = (String, Option<Definition>);

    fn load(&mut self, path: &str) -> Result<Self::Data, Error> {
        self.loads.push(path.to_string());
        if self.broken {
            Err(Error::TextureLoad(path.to_string()))
        } else {
            Ok((path.to_string(), None))
        }
    }

    fn colourise(&mut self, data: &mut Self::Data, fg: Definition) {
        self.tints += 1;
        data.1 = Some(fg);
    }
}

fn fonts() -> Fonts {
    Fonts {
        small: Font::from_dir("fonts/small"),
        large: Font::from_dir("fonts/large"),
    }
}

fn path(of: &[&str]) -> String {
    of.iter().collect::<PathBuf>().to_string_lossy().into_owned()
}

/// A manager of which the test can watch the loader.
fn manager(loader: &mut Counter) -> Manager<Fonts, ega::Ega, &mut Counter> {
    let fonts = fonts();
    let metrics = fonts.load_metrics().unwrap();
    Manager::new(loader, fonts, metrics, ega::ega())
}

impl Loader for &mut Counter {
    type Data = (String, Option<Definition>);

    fn load(&mut self, path: &str) -> Result<Self::Data, Error> {
        (**self).load(path)
    }

    fn colourise(&mut self, data: &mut Self::Data, fg: Definition) {
        (**self).colourise(data, fg)
    }
}

const RED: ega::Id = ega::Id::Bright(ega::BaseId::Red);
const BLUE: ega::Id = ega::Id::Dark(ega::BaseId::Blue);

#[test]
fn font_texture_path() {
    let path = Font::from_dir("test").texture_path();
    assert_eq!(
        ["test", "font.png"].iter().collect::<PathBuf>(),
        PathBuf::from(path)
    );
}

#[test]
fn font_metrics_path() {
    let path = Font::from_dir("test").metrics_path();
    assert_eq!(
        ["test", "metrics.ron"].iter().collect::<PathBuf>(),
        PathBuf::from(path)
    );
}

#[test]
fn data_are_loaded_once() {
    let mut loader = Counter::default();
    {
        let mut manager = manager(&mut loader);
        let spec = Spec { id: 0, colour: RED };
        let first = manager.data(spec).unwrap().clone();
        for _ in 0..5 {
            assert_eq!(&first, manager.data(spec).unwrap());
        }
        assert_eq!(path(&["fonts", "small", "font.png"]), first.0);
        assert_eq!(Some(Definition::rgb(0xFF, 0x55, 0x55)), first.1);
    }
    assert_eq!(vec![path(&["fonts", "small", "font.png"])], loader.loads);
    assert_eq!(1, loader.tints);
}

#[test]
fn each_font_and_colour_is_loaded_for_itself() {
    let mut loader = Counter::default();
    {
        let mut manager = manager(&mut loader);
        let specs = [
            Spec { id: 0, colour: RED },
            Spec { id: 1, colour: RED },
            Spec { id: 0, colour: BLUE },
        ];
        for _ in 0..3 {
            for spec in specs {
                manager.data(spec).unwrap();
            }
        }
        assert_eq!(
            (
                path(&["fonts", "large", "font.png"]),
                Some(Definition::rgb(0xFF, 0x55, 0x55))
            ),
            *manager.data(specs[1]).unwrap()
        );
        assert_eq!(
            (
                path(&["fonts", "small", "font.png"]),
                Some(Definition::rgb(0x00, 0x00, 0xAA))
            ),
            *manager.data(specs[2]).unwrap()
        );
    }
    assert_eq!(3, loader.loads.len());
    assert_eq!(3, loader.tints);
}

#[test]
fn a_failed_load_is_reported_and_not_cached() {
    let mut loader = Counter {
        broken: true,
        ..Counter::default()
    };
    {
        let mut manager = manager(&mut loader);
        let spec = Spec { id: 0, colour: RED };
        assert!(matches!(manager.data(spec), Err(Error::TextureLoad(_))));
        assert!(manager.index(spec).is_none());
        assert!(matches!(manager.data(spec), Err(Error::TextureLoad(_))));
    }
    assert_eq!(2, loader.loads.len());
    assert_eq!(0, loader.tints);
}

#[test]
fn index_and_get() {
    let mut loader = Counter::default();
    let mut manager = manager(&mut loader);
    let red = Spec { id: 0, colour: RED };
    let blue = Spec { id: 0, colour: BLUE };
    assert_eq!(None, manager.index(red));
    manager.data(red).unwrap();
    manager.data(blue).unwrap();
    let red_index = manager.index(red).unwrap();
    let blue_index = manager.index(blue).unwrap();
    assert_ne!(red_index, blue_index);
    assert_eq!(Some(Definition::rgb(0xFF, 0x55, 0x55)), manager.get(red_index).unwrap().1);
    assert_eq!(Some(Definition::rgb(0x00, 0x00, 0xAA)), manager.get(blue_index).unwrap().1);
}

#[test]
fn the_default_index_is_a_bad_handle() {
    let mut loader = Counter::default();
    let mut manager = manager(&mut loader);
    manager.data(Spec { id: 0, colour: RED }).unwrap();
    match manager.get(Index::default()) {
        Err(Error::BadHandle(index)) => assert_eq!(Index::default(), index),
        other => panic!("expected a bad handle, got {:?}", other),
    }
}

#[test]
fn insert_records_data_that_were_loaded_elsewhere() {
    let mut loader = Counter::default();
    {
        let mut manager = manager(&mut loader);
        let spec = Spec { id: 1, colour: BLUE };
        assert_eq!(path(&["fonts", "large", "font.png"]), manager.texture_path(spec));
        assert_eq!(Definition::rgb(0x00, 0x00, 0xAA), manager.colour(spec));
        let index = manager.insert(spec, ("elsewhere".to_string(), None));
        assert_eq!(Some(index), manager.index(spec));
        assert_eq!("elsewhere", manager.data(spec).unwrap().0);
    }
    assert!(loader.loads.is_empty());
}

#[test]
fn manager_hands_out_its_metrics() {
    let mut loader = Counter::default();
    let manager = manager(&mut loader);
    assert_eq!(0, manager.metrics().get(0).span_w_char('a'));
}

#[test]
fn defaulting_hash_map_defaults() {
    let mut map = HashMap::new();
    map.insert(1u8, "one");
    let mut map = DefaultingHashMap::new(map, "none");
    assert_eq!("one", *map.get(1));
    assert_eq!("none", *map.get(2));
    map.set(2, "two");
    assert_eq!("two", *map.get(2));
    map.set(1, "uno");
    assert_eq!("uno", *map.get(1));
    let mut entries: Vec<(u8, &str)> = map.iter().map(|(k, v)| (*k, *v)).collect();
    entries.sort();
    assert_eq!(vec![(1, "uno"), (2, "two")], entries);
}

#[test]
fn default_defaulting_hash_map() {
    let map: DefaultingHashMap<u8, i32> = DefaultingHashMap::default();
    assert_eq!(0, *map.get(9));
    assert_eq!(0, map.iter().count());
}

#[test]
fn default_spec() {
    let spec: Spec<u8, ega::Id> = Spec::default();
    assert_eq!(
        Spec {
            id: 0,
            colour: ega::Id::Bright(ega::BaseId::White)
        },
        spec
    );
}
