# comic_crawler

A crawler for comic (manga) reading sites: blogtruyenmoi, the NetTruyen
family, mangajuice and alyasometimeshidesherfeelings. It follows the links of
the pages it fetches, stores comics with their information and chapter
lists, and stores the images of chapter pages.

- `src/` is the library, verified with Verus: which links are followed and
  how they are rewritten (`modules`), what each site's comic and chapter pages
  say (`modules::pages`, `modules::chapters` and the site modules), the
  decisions of a worker and of the coordinator (`modules::worker`), the
  records and updates of the database (`db`), and the helpers around fetching
  (`util`). Regular expressions (`regex`) and HTML selection (`scraper`) are
  reached through a few trusted functions in `pattern` and `dom`, each with
  the contract it is trusted for.
- `app/` is the program: the Tokio coordinator and workers, HTTP fetching
  (`reqwest`), and the database access through the Prisma client of the
  crawler's schema (the module `prisma`, which the Prisma CLI writes).
- `tests/` runs the library on concrete pages and values.
